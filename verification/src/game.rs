//! The game framework: bounding boxes, capability traits, entities, scenes,
//! and the runtime that drives the fixed per-frame phases.

use vstd::prelude::*;
use crate::display::{Canvas, Color, Display, DrawOp, Renderable};
use crate::input::InputMap;
use crate::input::Key;

verus! {

/// Box positions are clamped into half the i32 range, so that a position
/// plus a size can never leave the i32 range.
pub open spec fn clamp_position(val: int) -> int {
    if val > 1073741823 {
        1073741823
    } else if val < -1073741824 {
        -1073741824
    } else {
        val
    }
}

/// Box sizes are clamped into [1, half the i32 range]: a zero size becomes
/// one pixel.
pub open spec fn clamp_size(val: int) -> int {
    if val == 0 {
        1
    } else if val > 1073741823 {
        1073741823
    } else {
        val
    }
}

/// An axis-aligned rectangle (x, y, width, height) in screen-space integer
/// coordinates, used for intersection-based collision queries.
#[derive(Clone, Copy, Debug, PartialEq, Eq, Structural)]
pub struct BoundingBox {
    pub x: i32,
    pub y: i32,
    pub width: u32,
    pub height: u32,
}

impl BoundingBox {
    /// Two boxes intersect when they overlap on both axes, with strict
    /// inequalities: touching edges do not count as an intersection.
    pub open spec fn intersects(self, other: BoundingBox) -> bool {
        &&& self.x < other.x + other.width
        &&& other.x < self.x + self.width
        &&& self.y < other.y + other.height
        &&& other.y < self.y + self.height
    }

    /// Builds a box with the position and size clamps applied.
    pub fn new(x: i32, y: i32, width: u32, height: u32) -> (b: BoundingBox)
        ensures
            b == (BoundingBox {
                x: clamp_position(x as int) as i32,
                y: clamp_position(y as int) as i32,
                width: clamp_size(width as int) as u32,
                height: clamp_size(height as int) as u32,
            }),
    {
        let cx: i32 = if x > 1073741823 {
            1073741823
        } else if x < -1073741824 {
            -1073741824
        } else {
            x
        };
        let cy: i32 = if y > 1073741823 {
            1073741823
        } else if y < -1073741824 {
            -1073741824
        } else {
            y
        };
        let cw: u32 = if width == 0 {
            1
        } else if width > 1073741823 {
            1073741823
        } else {
            width
        };
        let ch: u32 = if height == 0 {
            1
        } else if height > 1073741823 {
            1073741823
        } else {
            height
        };
        BoundingBox { x: cx, y: cy, width: cw, height: ch }
    }

    /// Reports whether `self` and `other` overlap.
    pub fn has_intersection(&self, other: &BoundingBox) -> (r: bool)
        ensures
            r == self.intersects(*other),
    {
        let r: bool = (self.x as i64) < (other.x as i64) + (other.width as i64)
            && (other.x as i64) < (self.x as i64) + (self.width as i64)
            && (self.y as i64) < (other.y as i64) + (other.height as i64)
            && (other.y as i64) < (self.y as i64) + (self.height as i64);
        r
    }
}

/// Exposes an optional axis-aligned bounding box for collision queries.
pub trait Collider: Sized {
    /// The box this collider exposes, if any.
    spec fn collider_spec(self) -> Option<BoundingBox>;

    /// Hands out the box: exactly `collider_spec`.
    fn collider(&self) -> (r: Option<BoundingBox>)
        ensures
            r == self.collider_spec(),
    ;
}

/// The default collision capability: no box, so the owner never takes part
/// in collision queries.
pub struct VoidCollider {}

impl Collider for VoidCollider {
    open spec fn collider_spec(self) -> Option<BoundingBox> {
        None
    }

    fn collider(&self) -> (r: Option<BoundingBox>) {
        None
    }
}

/// A collider with a fixed box, built with the usual clamps.
pub struct BoxCollider {
    pub x: i32,
    pub y: i32,
    pub width: u32,
    pub height: u32,
}

impl Collider for BoxCollider {
    open spec fn collider_spec(self) -> Option<BoundingBox> {
        Some(BoundingBox {
            x: clamp_position(self.x as int) as i32,
            y: clamp_position(self.y as int) as i32,
            width: clamp_size(self.width as int) as u32,
            height: clamp_size(self.height as int) as u32,
        })
    }

    fn collider(&self) -> (r: Option<BoundingBox>) {
        Some(BoundingBox::new(self.x, self.y, self.width, self.height))
    }
}

/// A polymorphic behavioral unit composing up to four capabilities:
/// display, input, update, collider. An entity owns its state exclusively;
/// cross-entity interaction happens only through the frozen scene snapshot
/// handed to the update phase.
pub trait Entity: Sized + Copy {
    /// Bounds on the entity's state that keep the phase arithmetic inside
    /// machine limits.
    spec fn wf(self) -> bool;

    /// The renderable this entity hands the draw phase.
    spec fn display_spec(self) -> Renderable;

    /// The entity after it has handled the given input snapshot.
    spec fn input_spec(self, input: InputMap) -> Self;

    /// The entity after it has updated against the given frozen snapshot.
    spec fn update_spec(self, snapshot: Seq<Self>) -> Self;

    /// The bounding box the entity exposes, if any.
    spec fn collider_spec(self) -> Option<BoundingBox>;

    /// Produces the entity's renderable, ready to draw.
    fn display(&self) -> (r: Renderable)
        requires
            self.wf(),
        ensures
            r == self.display_spec(),
            r.wf(),
    ;

    /// Input phase: mutates only this entity, exactly as `input_spec` says.
    fn input(&mut self, input: &InputMap)
        requires
            old(self).wf(),
        ensures
            *final(self) == old(self).input_spec(*input),
    ;

    /// Update phase: reads the frozen snapshot, mutates only this entity,
    /// exactly as `update_spec` says.
    fn update(&mut self, scene: &Scene<Self>)
        requires
            old(self).wf(),
        ensures
            *final(self) == old(self).update_spec(scene@),
    ;

    /// Hands out the entity's collision box: exactly `collider_spec`.
    fn collider(&self) -> (r: Option<BoundingBox>)
        ensures
            r == self.collider_spec(),
    ;

    /// Whether the entity currently satisfies its bounds.
    fn check_wf(&self) -> (b: bool)
        ensures
            b == self.wf(),
    ;
}

/// Reads a frozen snapshot of the whole scene and mutates only its owning
/// value; the default capability changes nothing.
pub trait Update<E>: Sized {
    /// Bounds under which the updater may run.
    spec fn update_wf(self) -> bool;

    /// The owning value after one update against the snapshot.
    spec fn update_spec(self, snapshot: Seq<E>) -> Self;

    /// Applies the update: the new value is exactly `update_spec`.
    fn update(&mut self, scene: &Scene<E>)
        requires
            old(self).update_wf(),
        ensures
            *final(self) == old(self).update_spec(scene@),
    ;
}

/// The default update capability: it changes nothing.
pub struct VoidUpdate {}

impl<E> Update<E> for VoidUpdate {
    open spec fn update_wf(self) -> bool {
        true
    }

    open spec fn update_spec(self, snapshot: Seq<E>) -> VoidUpdate {
        self
    }

    fn update(&mut self, scene: &Scene<E>) {
    }
}

/// An ordered, clonable collection of entities: the unit of world state.
/// Order is meaningful: it is draw order and phase iteration order.
#[derive(Clone)]
pub struct Scene<E> {
    pub entities: Vec<E>,
}

impl<E> View for Scene<E> {
    type V = Seq<E>;

    open spec fn view(&self) -> Seq<E> {
        self.entities@
    }
}

impl<E: Entity> Scene<E> {
    /// All entities satisfy their bounds.
    pub open spec fn wf(self) -> bool {
        forall|i: int| 0 <= i < self.entities@.len() ==> (#[trigger] self.entities@[i]).wf()
    }

    /// An empty scene.
    pub fn new() -> (s: Scene<E>)
        ensures
            s@ == Seq::<E>::empty(),
    {
        let s = Scene { entities: Vec::new() };
        proof {
            assert(s@ =~= Seq::<E>::empty());
        }
        s
    }

    /// Appends an entity to the ordered sequence; earlier entities draw
    /// first. There is no removal: the entity set is static for the run.
    pub fn add(&mut self, entity: E)
        ensures
            final(self)@ == old(self)@.push(entity),
    {
        self.entities.push(entity);
    }

    /// Duplicates the scene: a fully detached, value-equal copy, usable as
    /// the frozen update-phase snapshot.
    pub fn snapshot(&self) -> (s: Scene<E>)
        ensures
            s@ == self@,
    {
        let mut out: Vec<E> = Vec::new();
        let mut i: usize = 0;
        while i < self.entities.len()
            invariant
                i <= self.entities.len(),
                out@ == self.entities@.take(i as int),
            decreases self.entities.len() - i,
        {
            out.push(self.entities[i]);
            i = i + 1;
            proof {
                assert(out@ =~= self.entities@.take(i as int));
            }
        }
        proof {
            assert(self.entities@.take(i as int) =~= self.entities@);
        }
        Scene { entities: out }
    }

    /// Checks every entity's bounds.
    pub fn check_wf(&self) -> (b: bool)
        ensures
            b == self.wf(),
    {
        let mut i: usize = 0;
        while i < self.entities.len()
            invariant
                i <= self.entities.len(),
                forall|j: int| 0 <= j < i ==> (#[trigger] self.entities@[j]).wf(),
            decreases self.entities.len() - i,
        {
            if !self.entities[i].check_wf() {
                return false;
            }
            i = i + 1;
        }
        true
    }
}

/// A discrete input event drained at the start of the input phase.
#[derive(Clone, Copy, Debug, PartialEq, Eq, Structural)]
pub enum Event {
    /// The window was asked to close.
    Quit,
    /// A key went down.
    KeyDown(Key),
}

/// Whether the drained events demand termination: a quit event or an escape
/// key press ends the run.
pub open spec fn quit_requested(events: Seq<Event>) -> bool {
    exists|i: int|
        0 <= i < events.len() && (events[i] == Event::Quit || events[i] == Event::KeyDown(
            Key::Escape,
        ))
}

/// Decides termination for one batch of drained events.
pub fn should_quit(events: &Vec<Event>) -> (r: bool)
    ensures
        r == quit_requested(events@),
{
    let mut i: usize = 0;
    while i < events.len()
        invariant
            i <= events.len(),
            forall|j: int|
                0 <= j < i ==> events@[j] != Event::Quit && events@[j] != Event::KeyDown(
                    Key::Escape,
                ),
        decreases events.len() - i,
    {
        match events[i] {
            Event::Quit => {
                proof {
                    assert(events@[i as int] == Event::Quit);
                }
                return true;
            },
            Event::KeyDown(key) => {
                if key == Key::Escape {
                    proof {
                        assert(events@[i as int] == Event::KeyDown(Key::Escape));
                    }
                    return true;
                }
            },
        }
        i = i + 1;
    }
    false
}

/// The scene after the input phase: every entity has handled the same input
/// snapshot, in scene order.
pub open spec fn input_phase<E: Entity>(s: Seq<E>, input: InputMap) -> Seq<E> {
    s.map_values(|e: E| e.input_spec(input))
}

/// The scene after the update phase: every entity has updated against the
/// same frozen pre-phase snapshot `s`, in scene order, so no updater
/// observes a sibling's same-frame mutation.
pub open spec fn update_phase<E: Entity>(s: Seq<E>) -> Seq<E> {
    Seq::new(s.len(), |i: int| s[i].update_spec(s))
}

/// The commands the first `n` entities of `s` issue, in scene order.
pub open spec fn render_ops_upto<E: Entity>(s: Seq<E>, n: int) -> Seq<DrawOp>
    decreases n,
{
    if n <= 0 {
        Seq::empty()
    } else {
        render_ops_upto(s, n - 1) + s[n - 1].display_spec().ops_spec()
    }
}

/// The commands of the whole scene, in scene order: later entities draw
/// over earlier ones.
pub open spec fn render_ops<E: Entity>(s: Seq<E>) -> Seq<DrawOp> {
    render_ops_upto(s, s.len() as int)
}

/// The fixed color the draw phase clears to before the entities draw.
pub open spec fn background_color() -> Color {
    Color { r: 0, g: 0, b: 0, a: 255 }
}

/// The full command sequence of one draw phase: clear to the background
/// color, draw every entity in scene order, present.
pub open spec fn draw_phase<E: Entity>(s: Seq<E>) -> Seq<DrawOp> {
    seq![DrawOp::SetColor(background_color()), DrawOp::Clear] + render_ops(s) + seq![
        DrawOp::Present,
    ]
}

/// The runtime: owns the current scene and drives the fixed frame phases
/// (input, then update, then draw). The embedder owns the real surface and
/// input devices: it hands each frame's drained events and key snapshot in,
/// and replays the recorded draw commands.
pub struct Game<E: Entity> {
    scene: Option<Scene<E>>,
}

impl<E: Entity> Game<E> {
    /// The bound scene's entities; empty while no scene is bound.
    pub closed spec fn scene_view(self) -> Seq<E> {
        match self.scene {
            Some(s) => s@,
            None => Seq::empty(),
        }
    }

    /// Whether a scene has been bound.
    pub closed spec fn has_scene(self) -> bool {
        self.scene is Some
    }

    /// Ready to run a frame: a scene is bound and every entity satisfies
    /// its bounds.
    pub open spec fn wf(self) -> bool {
        &&& self.has_scene()
        &&& forall|i: int|
            0 <= i < self.scene_view().len() ==> (#[trigger] self.scene_view()[i]).wf()
    }

    /// A runtime with no scene bound yet; running a frame before a scene is
    /// bound is a configuration error.
    pub fn new() -> (g: Game<E>)
        ensures
            !g.has_scene(),
            g.scene_view() == Seq::<E>::empty(),
    {
        Game { scene: None }
    }

    /// Binds the scene the loop will drive.
    pub fn set_scene(&mut self, scene: Scene<E>)
        ensures
            final(self).has_scene(),
            final(self).scene_view() == scene@,
    {
        self.scene = Some(scene);
    }

    /// Whether a scene has been bound yet.
    pub fn is_scene_bound(&self) -> (b: bool)
        ensures
            b == self.has_scene(),
    {
        match &self.scene {
            None => false,
            Some(_) => true,
        }
    }

    /// Checks that a scene is bound and all its entities are in bounds.
    pub fn ready(&self) -> (b: bool)
        ensures
            b == self.wf(),
    {
        match &self.scene {
            None => false,
            Some(s) => {
                let b = s.check_wf();
                proof {
                    assert(self.scene_view() == s.entities@);
                    if b {
                        assert forall|i: int|
                            0 <= i < self.scene_view().len() implies (#[trigger] self.scene_view()[i]).wf() by {
                            assert(s.entities@[i].wf());
                        }
                    } else {
                        if self.wf() {
                            assert forall|i: int|
                                0 <= i < s.entities@.len() implies (#[trigger] s.entities@[i]).wf() by {
                                assert(self.scene_view()[i].wf());
                            }
                        }
                    }
                }
                b
            },
        }
    }

    /// Hands back a copy of the bound scene's entities, in order; empty
    /// while no scene is bound.
    pub fn entities(&self) -> (v: Vec<E>)
        ensures
            v@ == self.scene_view(),
    {
        match &self.scene {
            None => {
                let v: Vec<E> = Vec::new();
                proof {
                    assert(v@ =~= self.scene_view());
                }
                v
            },
            Some(s) => s.snapshot().entities,
        }
    }

    /// The input phase. Quit or escape among the drained events ends the
    /// run with the scene untouched; otherwise every entity handles the
    /// same key snapshot, in scene order.
    pub fn handle_input(&mut self, events: &Vec<Event>, input: &InputMap) -> (quit: bool)
        requires
            old(self).wf(),
        ensures
            quit == quit_requested(events@),
            quit ==> *final(self) == *old(self),
            !quit ==> final(self).has_scene() && final(self).scene_view() == input_phase(
                old(self).scene_view(),
                *input,
            ),
    {
        if should_quit(events) {
            return true;
        }
        let mut tmp: Option<Scene<E>> = None;
        core::mem::swap(&mut tmp, &mut self.scene);
        match tmp {
            Some(mut scene) => {
                let ghost s0 = scene.entities@;
                proof {
                    assert(s0 == old(self).scene_view());
                    assert forall|j: int| 0 <= j < s0.len() implies (#[trigger] s0[j]).wf() by {
                        assert(old(self).scene_view()[j].wf());
                    }
                }
                let mut out: Vec<E> = Vec::new();
                let mut i: usize = 0;
                while i < scene.entities.len()
                    invariant
                        i <= scene.entities.len(),
                        scene.entities@ == s0,
                        forall|j: int| 0 <= j < s0.len() ==> (#[trigger] s0[j]).wf(),
                        out@.len() == i,
                        forall|j: int| 0 <= j < i ==> out@[j] == (#[trigger] s0[j]).input_spec(*input),
                    decreases scene.entities.len() - i,
                {
                    let mut e = scene.entities[i];
                    e.input(input);
                    out.push(e);
                    i = i + 1;
                }
                scene.entities = out;
                self.scene = Some(scene);
                proof {
                    assert(self.scene_view() =~= input_phase(s0, *input));
                }
            },
            None => {
                proof {
                    assert(false);
                }
            },
        }
        false
    }

    /// The update phase: duplicates the live scene into a frozen snapshot,
    /// then every entity updates against that snapshot, in scene order,
    /// mutating only itself.
    pub fn handle_update(&mut self)
        requires
            old(self).wf(),
        ensures
            final(self).has_scene(),
            final(self).scene_view() == update_phase(old(self).scene_view()),
    {
        let mut tmp: Option<Scene<E>> = None;
        core::mem::swap(&mut tmp, &mut self.scene);
        match tmp {
            Some(mut scene) => {
                let ghost s0 = scene.entities@;
                proof {
                    assert(s0 == old(self).scene_view());
                    assert forall|j: int| 0 <= j < s0.len() implies (#[trigger] s0[j]).wf() by {
                        assert(old(self).scene_view()[j].wf());
                    }
                }
                let previous = scene.snapshot();
                let mut out: Vec<E> = Vec::new();
                let mut i: usize = 0;
                while i < scene.entities.len()
                    invariant
                        i <= scene.entities.len(),
                        scene.entities@ == s0,
                        previous@ == s0,
                        forall|j: int| 0 <= j < s0.len() ==> (#[trigger] s0[j]).wf(),
                        out@.len() == i,
                        forall|j: int| 0 <= j < i ==> out@[j] == (#[trigger] s0[j]).update_spec(s0),
                    decreases scene.entities.len() - i,
                {
                    let mut e = scene.entities[i];
                    e.update(&previous);
                    out.push(e);
                    i = i + 1;
                }
                scene.entities = out;
                self.scene = Some(scene);
                proof {
                    assert(self.scene_view() =~= update_phase(s0));
                }
            },
            None => {
                proof {
                    assert(false);
                }
            },
        }
    }

    /// The draw phase: clears to the background color, draws every entity
    /// in scene order (later entities draw over earlier ones), presents.
    pub fn handle_draw(&self, canvas: &mut Canvas)
        requires
            self.wf(),
        ensures
            final(canvas)@ == old(canvas)@ + draw_phase(self.scene_view()),
    {
        canvas.set_draw_color(Color::rgb(0, 0, 0));
        canvas.clear();
        match &self.scene {
            Some(scene) => {
                let ghost s0 = scene.entities@;
                proof {
                    assert(s0 == self.scene_view());
                    assert forall|j: int| 0 <= j < s0.len() implies (#[trigger] s0[j]).wf() by {
                        assert(self.scene_view()[j].wf());
                    }
                }
                let mut i: usize = 0;
                while i < scene.entities.len()
                    invariant
                        i <= scene.entities.len(),
                        scene.entities@ == s0,
                        s0 == self.scene_view(),
                        forall|j: int| 0 <= j < s0.len() ==> (#[trigger] s0[j]).wf(),
                        canvas@ == old(canvas)@ + seq![
                            DrawOp::SetColor(background_color()),
                            DrawOp::Clear,
                        ] + render_ops_upto(s0, i as int),
                    decreases scene.entities.len() - i,
                {
                    let r = scene.entities[i].display();
                    r.display(canvas);
                    i = i + 1;
                    proof {
                        assert(canvas@ =~= old(canvas)@ + seq![
                            DrawOp::SetColor(background_color()),
                            DrawOp::Clear,
                        ] + render_ops_upto(s0, i as int));
                    }
                }
            },
            None => {
                proof {
                    assert(false);
                }
            },
        }
        canvas.present();
        proof {
            assert(final(canvas)@ =~= old(canvas)@ + draw_phase(self.scene_view()));
        }
    }
}

/// All updaters of a frame see the same pre-phase state: the update phase
/// is a pointwise function of the frozen snapshot, so no entity can observe
/// a sibling's same-frame mutation.
pub proof fn lemma_update_phase_frozen<E: Entity>(s: Seq<E>, i: int)
    requires
        0 <= i < s.len(),
    ensures
        update_phase(s)[i] == s[i].update_spec(s),
{
}

/// Update-phase determinism: from equal starting scenes the update phase
/// yields equal scenes; the phase is a function of the snapshot alone, with
/// no hidden source of nondeterminism.
pub proof fn lemma_update_phase_deterministic<E: Entity>(s1: Seq<E>, s2: Seq<E>)
    requires
        s1 == s2,
    ensures
        update_phase(s1) == update_phase(s2),
{
}

} // verus!
