//! The manipulation state machine and the per-frame simulation step: the
//! mode (running, or paused with one of six manipulation sub-modes), the
//! ordered shape collection, the pointer and button transitions that mutate
//! them, and the integrate/detect/bounce pass of a running frame.

use vstd::prelude::*;
use crate::vec2::{Vec2, in_mag, clamp_s, clamp_i64};
use crate::circle::{Circle, circle_mass_s};
use crate::rect::{Rect, Rot, rect_mass_s, from_centre_s};
use crate::shape::{
    Shape, all_wf, shapes_intersect_s, shape_translated_s, shape_impulsed_s, shape_ang_impulsed_s,
    shape_integrated_s, shape_resized_s, shape_rotated_s, shape_bounced_s, detect_pairs_s,
    detectIntersections,
};
use crate::{POS_LIMIT, VEL_LIMIT, ONE};

verus! {

/// The pointer button a click came with.
#[derive(Clone, Copy, Debug, PartialEq, Eq, Structural)]
pub enum PointerButton {
    Left,
    Right,
}

/// The manipulation sub-mode of a paused simulation. A held shape lives in
/// the mode value itself, removed from the shared collection for the
/// duration of the drag; the second field is the grab offset (click minus
/// shape centroid), and the resize/rotate modes carry an immutable snapshot
/// taken at drag start so the incremental math never compounds.
#[derive(Clone, Copy, Debug, PartialEq, Eq, Structural)]
pub enum ManipMode {
    Move,
    Carrying(Shape, Vec2),
    VelSetting(Shape, Vec2),
    AngVelSetting(Shape, Vec2),
    Resizing(Shape, Vec2, Shape),
    Rotating(Shape, Vec2, Shape),
}

/// Running, or paused in a manipulation sub-mode.
#[derive(Clone, Copy, Debug, PartialEq, Eq, Structural)]
pub enum Mode {
    Paused(ManipMode),
    Unpaused,
}

/// The shape a manipulation mode is holding, if any.
pub open spec fn manip_held_s(m: ManipMode) -> Option<Shape> {
    match m {
        ManipMode::Move => None,
        ManipMode::Carrying(s, _) => Some(s),
        ManipMode::VelSetting(s, _) => Some(s),
        ManipMode::AngVelSetting(s, _) => Some(s),
        ManipMode::Resizing(s, _, _) => Some(s),
        ManipMode::Rotating(s, _, _) => Some(s),
    }
}

/// Well-formedness of a manipulation mode: held shapes and snapshots are
/// well-formed, grab offsets lie within two position bands (a click and a
/// centroid each contribute one).
pub open spec fn manip_wf(m: ManipMode) -> bool {
    match m {
        ManipMode::Move => true,
        ManipMode::Carrying(s, g) => s.wf() && in_mag(g, 2 * POS_LIMIT as int),
        ManipMode::VelSetting(s, g) => s.wf() && in_mag(g, 2 * POS_LIMIT as int),
        ManipMode::AngVelSetting(s, g) => s.wf() && in_mag(g, 2 * POS_LIMIT as int),
        ManipMode::Resizing(s, g, a) => s.wf() && in_mag(g, 2 * POS_LIMIT as int) && a.wf() && (
        s matches Shape::Circle(_) <==> a matches Shape::Circle(_)),
        ManipMode::Rotating(s, g, a) => s.wf() && in_mag(g, 2 * POS_LIMIT as int) && a.wf(),
    }
}

pub open spec fn mode_wf(m: Mode) -> bool {
    match m {
        Mode::Paused(mm) => manip_wf(mm),
        Mode::Unpaused => true,
    }
}

/// The smallest index of a shape containing `click`, or the collection
/// length when none does.
pub open spec fn first_hit_s(objs: Seq<Shape>, click: Vec2) -> int
    decreases objs.len(),
{
    if objs.len() == 0 {
        0
    } else if objs[0].contains_s(click) {
        0
    } else {
        1 + first_hit_s(objs.drop_first(), click)
    }
}

/// `first_hit_s` is characterised by "none before, and a hit at the index
/// unless it is the length".
pub proof fn lemma_first_hit(objs: Seq<Shape>, click: Vec2, i: int)
    requires
        0 <= i <= objs.len(),
        forall|k: int| 0 <= k < i ==> !(#[trigger] objs[k]).contains_s(click),
        i < objs.len() ==> objs[i].contains_s(click),
    ensures
        first_hit_s(objs, click) == i,
    decreases objs.len(),
{
    if objs.len() == 0 {
    } else if i == 0 {
    } else {
        assert(!objs[0].contains_s(click));
        assert forall|k: int| 0 <= k < i - 1 implies !(#[trigger] objs.drop_first()[k]).contains_s(
            click,
        ) by {
            assert(objs.drop_first()[k] == objs[k + 1]);
        }
        if i - 1 < objs.drop_first().len() {
            assert(objs.drop_first()[i - 1] == objs[i]);
        }
        lemma_first_hit(objs.drop_first(), click, i - 1);
    }
}

/// The grab offset of a click on a shape: click minus centroid.
pub open spec fn grab_s(click: Vec2, s: Shape) -> Vec2 {
    Vec2 { x: (click.x - s.pos_x_s()) as i64, y: (click.y - s.pos_y_s()) as i64 }
}

/// The mode a pointer-down in Move mode transitions to, once a shape was
/// hit: the button and the modifier keys choose the manipulation, with
/// shift-right-click deleting the shape instead (the mode stays Move).
pub open spec fn pointer_down_mode_s(button: PointerButton, shift: bool, ctrl: bool, s: Shape, g: Vec2) -> Mode {
    match button {
        PointerButton::Left => if shift {
            Mode::Paused(ManipMode::Resizing(s, g, s))
        } else if ctrl {
            Mode::Paused(ManipMode::VelSetting(s, g))
        } else {
            Mode::Paused(ManipMode::Carrying(s, g))
        },
        PointerButton::Right => if shift {
            Mode::Paused(ManipMode::Move)
        } else if ctrl {
            Mode::Paused(ManipMode::AngVelSetting(s, g))
        } else {
            Mode::Paused(ManipMode::Rotating(s, g, s))
        },
    }
}

/// The carry target: the pointer minus the grab offset, saturated into the
/// position band.
pub open spec fn carry_target_s(mouse: Vec2, g: Vec2) -> Vec2 {
    Vec2 {
        x: clamp_s(mouse.x - g.x, POS_LIMIT as int) as i64,
        y: clamp_s(mouse.y - g.y, POS_LIMIT as int) as i64,
    }
}

/// The velocity a velocity-setting drag aims at: pointer position relative
/// to the shape, minus the grab offset, saturated into the velocity band.
pub open spec fn vel_target_s(mouse: Vec2, g: Vec2, s: Shape) -> Vec2 {
    Vec2 {
        x: clamp_s(mouse.x - s.pos_x_s() - g.x, VEL_LIMIT as int) as i64,
        y: clamp_s(mouse.y - s.pos_y_s() - g.y, VEL_LIMIT as int) as i64,
    }
}

/// The pointer position relative to the held shape's centroid.
pub open spec fn pointer_rel_s(mouse: Vec2, s: Shape) -> Vec2 {
    Vec2 { x: (mouse.x - s.pos_x_s()) as i64, y: (mouse.y - s.pos_y_s()) as i64 }
}

/// The mode after one per-frame manipulation pass: in each non-Move paused
/// sub-mode the held shape is mutated live from the pointer. The two polar
/// angles (of the pointer relative to the shape, and of the stored grab
/// vector) and the ready-made rotation are trigonometry of the inputs and
/// are supplied by the caller.
pub open spec fn frame_mode_s(m: Mode, mouse: Vec2, pointer_angle: i64, grab_angle: i64, rot: Rot) -> Mode {
    match m {
        Mode::Paused(ManipMode::Carrying(s, g)) => Mode::Paused(
            ManipMode::Carrying(shape_translated_s(s, carry_target_s(mouse, g)), g),
        ),
        Mode::Paused(ManipMode::VelSetting(s, g)) => Mode::Paused(
            ManipMode::VelSetting(
                shape_impulsed_s(
                    s,
                    Vec2 {
                        x: (vel_target_s(mouse, g, s).x - s.velocity_s().x) as i64,
                        y: (vel_target_s(mouse, g, s).y - s.velocity_s().y) as i64,
                    },
                ),
                g,
            ),
        ),
        Mode::Paused(ManipMode::AngVelSetting(s, g)) => Mode::Paused(
            ManipMode::AngVelSetting(
                shape_ang_impulsed_s(
                    s,
                    ((grab_angle - pointer_angle) - s.angular_velocity_s()) as i64,
                ),
                g,
            ),
        ),
        Mode::Paused(ManipMode::Resizing(s, g, a)) => Mode::Paused(
            ManipMode::Resizing(shape_resized_s(s, a, g, pointer_rel_s(mouse, s)), g, a),
        ),
        Mode::Paused(ManipMode::Rotating(s, g, a)) => Mode::Paused(
            ManipMode::Rotating(shape_rotated_s(s, rot), g, a),
        ),
        _ => m,
    }
}

/// Whether any two shapes of the collection intersect.
pub open spec fn any_intersection_s(objs: Seq<Shape>) -> bool {
    exists|i: int, j: int| 0 <= i < j < objs.len() && shapes_intersect_s(objs[i], objs[j])
}

/// Every shape advanced by one timestep.
pub open spec fn integrate_all_s(objs: Seq<Shape>, g: Vec2) -> Seq<Shape> {
    Seq::new(objs.len(), |k: int| shape_integrated_s(objs[k], g))
}

/// The sequential collision pass: for each detected pair in order, the
/// first shape bounces off the second's current state, then the second
/// bounces off a snapshot of the first taken just before its bounce.
pub open spec fn bounce_fold_s(arch: Seq<Shape>, pairs: Seq<(usize, usize)>) -> Seq<Shape>
    decreases pairs.len(),
{
    if pairs.len() == 0 {
        arch
    } else {
        let p = pairs[0];
        let snapshot = arch[p.0 as int];
        let a1 = arch.update(p.0 as int, shape_bounced_s(arch[p.0 as int], arch[p.1 as int]));
        let a2 = a1.update(p.1 as int, shape_bounced_s(a1[p.1 as int], snapshot));
        bounce_fold_s(a2, pairs.drop_first())
    }
}

/// One running frame over the collection: integrate every shape; if the
/// moved collection has intersecting pairs, discard the motion and run the
/// collision pass over the pre-integration collection instead.
pub open spec fn step_objects_s(objs: Seq<Shape>, g: Vec2) -> Seq<Shape> {
    let moved = integrate_all_s(objs, g);
    let pairs = detect_pairs_s(moved);
    if pairs.len() == 0 {
        moved
    } else {
        bounce_fold_s(objs, pairs)
    }
}

/// The spawn point of a freshly inserted shape: an off-screen placeholder
/// (it tracks the pointer as soon as the next frame runs).
pub const SPAWN_X: i64 = -1_500_000_000;

pub const SPAWN_Y: i64 = 1_500_000_000;

/// The default radius of an inserted circle: 50 units.
pub const DEFAULT_RADIUS: i64 = 50_000_000;

/// The default extents of an inserted rectangle: 100 by 100 units.
pub const DEFAULT_WIDTH: i64 = 100_000_000;

pub const DEFAULT_HEIGHT: i64 = 100_000_000;

/// The circle an insert button spawns.
pub open spec fn spawned_circle_s() -> Circle {
    Circle {
        centre: Vec2 { x: SPAWN_X, y: SPAWN_Y },
        radius: DEFAULT_RADIUS,
        velocity: Vec2 { x: 0, y: 0 },
        angular_velocity: 0,
        mass: circle_mass_s(DEFAULT_RADIUS as int) as i64,
    }
}

/// The rectangle an insert button spawns.
pub open spec fn spawned_rect_s() -> Rect {
    from_centre_s(
        Vec2 { x: SPAWN_X, y: SPAWN_Y },
        Vec2 { x: DEFAULT_WIDTH, y: DEFAULT_HEIGHT },
        Rot { angle: 0, cos: ONE, sin: 0 },
        rect_mass_s(DEFAULT_WIDTH as int, DEFAULT_HEIGHT as int),
    )
}

/// The whole mutable state of the sandbox: the ordered shape collection and
/// the interaction mode. Single-writer: the frame loop feeds events and
/// steps in sequence.
pub struct SimulationState {
    pub objects: Vec<Shape>,
    pub mode: Mode,
}

impl SimulationState {
    pub open spec fn wf(&self) -> bool {
        all_wf(self.objects@) && mode_wf(self.mode)
    }

    /// A fresh simulation: empty collection, paused in Move mode.
    pub fn new() -> (s: SimulationState)
        ensures
            s.objects@.len() == 0,
            s.mode == Mode::Paused(ManipMode::Move),
            s.wf(),
    {
        SimulationState { objects: Vec::new(), mode: Mode::Paused(ManipMode::Move) }
    }

    /// Append a shape to the collection (setup and insertion).
    pub fn add_shape(&mut self, s: Shape)
        requires
            old(self).wf(),
            s.wf(),
        ensures
            final(self).objects@ == old(self).objects@.push(s),
            final(self).mode == old(self).mode,
            final(self).wf(),
    {
        self.objects.push(s);
    }

    /// A pointer-down event: while paused in Move mode, the first shape
    /// (in collection order) containing the click is taken out of the
    /// collection and the button with the modifier keys decides the
    /// manipulation it enters; shift-right-click deletes it instead. In any
    /// other mode the event does nothing.
    pub fn pointer_down(&mut self, click: Vec2, button: PointerButton, shift: bool, ctrl: bool)
        requires
            old(self).wf(),
            in_mag(click, POS_LIMIT as int),
        ensures
            final(self).wf(),
            old(self).mode != Mode::Paused(ManipMode::Move) ==> *final(self) == *old(self),
            old(self).mode == Mode::Paused(ManipMode::Move) && first_hit_s(
                old(self).objects@,
                click,
            ) == old(self).objects@.len() ==> *final(self) == *old(self),
            old(self).mode == Mode::Paused(ManipMode::Move) && first_hit_s(
                old(self).objects@,
                click,
            ) < old(self).objects@.len() ==> {
                let h = first_hit_s(old(self).objects@, click);
                let s = old(self).objects@[h];
                final(self).objects@ == old(self).objects@.remove(h) && final(self).mode
                    == pointer_down_mode_s(button, shift, ctrl, s, grab_s(click, s))
            },
    {
        match self.mode {
            Mode::Paused(ManipMode::Move) => (),
            _ => {
                return ;
            },
        }
        let n: usize = self.objects.len();
        let mut found: usize = n;
        let mut i: usize = 0;
        while i < n
            invariant
                all_wf(self.objects@),
                n == self.objects@.len(),
                i <= n,
                in_mag(click, POS_LIMIT as int),
                found == n || (found < i && self.objects@[found as int].contains_s(click)),
                forall|k: int|
                    0 <= k < i && k < (if found < n { found as int } else { i as int }) ==> !(
                    #[trigger] self.objects@[k]).contains_s(click),
                found == n ==> forall|k: int|
                    0 <= k < i ==> !(#[trigger] self.objects@[k]).contains_s(click),
            decreases n - i,
        {
            if found == n {
                let oi = &self.objects[i];
                if oi.pointIn(&click) {
                    found = i;
                }
            }
            i = i + 1;
        }
        if found == n {
            proof {
                lemma_first_hit(self.objects@, click, n as int);
            }
            return ;
        }
        proof {
            lemma_first_hit(self.objects@, click, found as int);
        }
        let s: Shape = self.objects[found];
        let pos = s.position();
        let g = Vec2 { x: click.x - pos.x, y: click.y - pos.y };
        match button {
            PointerButton::Left => {
                if shift {
                    let object = self.objects.remove(found);
                    self.mode = Mode::Paused(ManipMode::Resizing(object, g, object));
                } else if ctrl {
                    let object = self.objects.remove(found);
                    self.mode = Mode::Paused(ManipMode::VelSetting(object, g));
                } else {
                    let object = self.objects.remove(found);
                    self.mode = Mode::Paused(ManipMode::Carrying(object, g));
                }
            },
            PointerButton::Right => {
                if shift {
                    self.objects.remove(found);
                } else if ctrl {
                    let object = self.objects.remove(found);
                    self.mode = Mode::Paused(ManipMode::AngVelSetting(object, g));
                } else {
                    let object = self.objects.remove(found);
                    self.mode = Mode::Paused(ManipMode::Rotating(object, g, object));
                }
            },
        }
        proof {
            assert(all_wf(self.objects@)) by {
                assert forall|k: int| 0 <= k < self.objects@.len() implies (
                #[trigger] self.objects@[k]).wf() by {
                    assert(self.objects@ == old(self).objects@.remove(found as int));
                }
            }
        }
    }

    /// A pointer-up event: a held shape returns to the end of the shared
    /// collection and the mode resets to Move; otherwise nothing happens.
    pub fn pointer_up(&mut self)
        requires
            old(self).wf(),
        ensures
            final(self).wf(),
            old(self).mode matches Mode::Paused(m) ==> (match manip_held_s(m) {
                Some(s) => final(self).objects@ == old(self).objects@.push(s) && final(self).mode
                    == Mode::Paused(ManipMode::Move),
                None => *final(self) == *old(self),
            }),
            old(self).mode == Mode::Unpaused ==> *final(self) == *old(self),
    {
        let m = self.mode;
        match m {
            Mode::Paused(ManipMode::Carrying(shape, _)) => {
                self.objects.push(shape);
                self.mode = Mode::Paused(ManipMode::Move);
            },
            Mode::Paused(ManipMode::VelSetting(shape, _)) => {
                self.objects.push(shape);
                self.mode = Mode::Paused(ManipMode::Move);
            },
            Mode::Paused(ManipMode::AngVelSetting(shape, _)) => {
                self.objects.push(shape);
                self.mode = Mode::Paused(ManipMode::Move);
            },
            Mode::Paused(ManipMode::Resizing(shape, _, _)) => {
                self.objects.push(shape);
                self.mode = Mode::Paused(ManipMode::Move);
            },
            Mode::Paused(ManipMode::Rotating(shape, _, _)) => {
                self.objects.push(shape);
                self.mode = Mode::Paused(ManipMode::Move);
            },
            _ => (),
        }
        proof {
            assert forall|k: int| 0 <= k < self.objects@.len() implies (
            #[trigger] self.objects@[k]).wf() by {
            }
        }
    }

    /// The per-frame manipulation pass: whichever shape the paused mode is
    /// holding is mutated live from the current pointer position. The two
    /// polar angles and the ready-made rotation are the trigonometry of the
    /// inputs, supplied by the caller: `pointer_angle` of the pointer
    /// relative to the held shape, `grab_angle` of the stored grab vector,
    /// and `rot` the archived rotation advanced by the swept angle.
    pub fn frame_manipulate(&mut self, mouse_pos: Vec2, pointer_angle: i64, grab_angle: i64, rot: Rot)
        requires
            old(self).wf(),
            in_mag(mouse_pos, POS_LIMIT as int),
            -1_000_000_000 <= pointer_angle <= 1_000_000_000,
            -1_000_000_000 <= grab_angle <= 1_000_000_000,
            rot.wf(),
        ensures
            final(self).wf(),
            final(self).objects == old(self).objects,
            final(self).mode == frame_mode_s(
                old(self).mode,
                mouse_pos,
                pointer_angle,
                grab_angle,
                rot,
            ),
    {
        let m = self.mode;
        match m {
            Mode::Paused(ManipMode::Carrying(mut shape, grab)) => {
                let target = Vec2 {
                    x: clamp_i64(mouse_pos.x - grab.x, POS_LIMIT),
                    y: clamp_i64(mouse_pos.y - grab.y, POS_LIMIT),
                };
                shape.translateTo(&target);
                self.mode = Mode::Paused(ManipMode::Carrying(shape, grab));
            },
            Mode::Paused(ManipMode::VelSetting(mut shape, grab)) => {
                let pos = shape.position();
                let vel = shape.velocity();
                let tx: i64 = clamp_i64(mouse_pos.x - pos.x - grab.x, VEL_LIMIT);
                let ty: i64 = clamp_i64(mouse_pos.y - pos.y - grab.y, VEL_LIMIT);
                shape.impulse(&Vec2 { x: tx - vel.x, y: ty - vel.y });
                self.mode = Mode::Paused(ManipMode::VelSetting(shape, grab));
            },
            Mode::Paused(ManipMode::AngVelSetting(mut shape, grab)) => {
                let av = shape.angular_velocity();
                shape.angular_impulse((grab_angle - pointer_angle) - av);
                self.mode = Mode::Paused(ManipMode::AngVelSetting(shape, grab));
            },
            Mode::Paused(ManipMode::Resizing(mut shape, grab, archive)) => {
                let pos = shape.position();
                let np = Vec2 { x: mouse_pos.x - pos.x, y: mouse_pos.y - pos.y };
                shape.resize(&grab, &np, &archive);
                self.mode = Mode::Paused(ManipMode::Resizing(shape, grab, archive));
            },
            Mode::Paused(ManipMode::Rotating(mut shape, grab, archive)) => {
                shape.rotate(rot);
                self.mode = Mode::Paused(ManipMode::Rotating(shape, grab, archive));
            },
            _ => (),
        }
    }

    /// The pause button: running pauses unconditionally into Move mode;
    /// unpausing is granted only when no two shapes of the collection
    /// intersect, and is otherwise refused with the state unchanged (the
    /// returned flag is the caller's cue to surface the diagnostic).
    pub fn pause_toggle(&mut self) -> (accepted: bool)
        requires
            old(self).wf(),
        ensures
            final(self).wf(),
            old(self).mode == Mode::Unpaused ==> final(self).mode == Mode::Paused(ManipMode::Move)
                && final(self).objects == old(self).objects && accepted,
            (old(self).mode matches Mode::Paused(_)) && !any_intersection_s(old(self).objects@)
                ==> final(self).mode == Mode::Unpaused && final(self).objects == old(self).objects
                && accepted,
            (old(self).mode matches Mode::Paused(_)) && any_intersection_s(old(self).objects@)
                ==> *final(self) == *old(self) && !accepted,
    {
        match self.mode {
            Mode::Unpaused => {
                self.mode = Mode::Paused(ManipMode::Move);
                true
            },
            Mode::Paused(_) => {
                let intersecting = detectIntersections(&self.objects);
                if intersecting.len() == 0 {
                    proof {
                        if any_intersection_s(self.objects@) {
                            let (i, j): (int, int) = choose|i: int, j: int|
                                0 <= i < j < self.objects@.len() && shapes_intersect_s(
                                    self.objects@[i],
                                    self.objects@[j],
                                );
                            assert(intersecting@.contains((i as usize, j as usize)));
                        }
                    }
                    self.mode = Mode::Unpaused;
                    true
                } else {
                    proof {
                        let p = intersecting@[0];
                        assert(shapes_intersect_s(
                            self.objects@[p.0 as int],
                            self.objects@[p.1 as int],
                        ));
                    }
                    false
                }
            },
        }
    }

    /// The move button: any paused sub-mode resets to Move (a held shape is
    /// discarded, as when pausing mid-drag); running is unaffected.
    pub fn set_move_mode(&mut self)
        requires
            old(self).wf(),
        ensures
            final(self).wf(),
            final(self).objects == old(self).objects,
            (old(self).mode matches Mode::Paused(_)) ==> final(self).mode == Mode::Paused(
                ManipMode::Move,
            ),
            old(self).mode == Mode::Unpaused ==> final(self).mode == Mode::Unpaused,
    {
        match self.mode {
            Mode::Paused(_) => {
                self.mode = Mode::Paused(ManipMode::Move);
            },
            Mode::Unpaused => (),
        }
    }

    /// The insert-circle button: while paused, a default circle appears at
    /// the off-screen spawn point, already carried (a held shape of the
    /// previous sub-mode is discarded); while running the request is
    /// refused.
    pub fn insert_circle(&mut self) -> (accepted: bool)
        requires
            old(self).wf(),
        ensures
            final(self).wf(),
            final(self).objects == old(self).objects,
            (old(self).mode matches Mode::Paused(_)) ==> final(self).mode == Mode::Paused(
                ManipMode::Carrying(Shape::Circle(spawned_circle_s()), Vec2 { x: 0, y: 0 }),
            ) && accepted,
            old(self).mode == Mode::Unpaused ==> final(self).mode == Mode::Unpaused && !accepted,
    {
        match self.mode {
            Mode::Paused(_) => {
                let circle = Circle::new(Vec2 { x: SPAWN_X, y: SPAWN_Y }, DEFAULT_RADIUS);
                self.mode = Mode::Paused(
                    ManipMode::Carrying(Shape::Circle(circle), Vec2 { x: 0, y: 0 }),
                );
                true
            },
            Mode::Unpaused => false,
        }
    }

    /// The insert-rectangle button: as `insert_circle`, with a default
    /// axis-aligned rectangle.
    pub fn insert_rect(&mut self) -> (accepted: bool)
        requires
            old(self).wf(),
        ensures
            final(self).wf(),
            final(self).objects == old(self).objects,
            (old(self).mode matches Mode::Paused(_)) ==> final(self).mode == Mode::Paused(
                ManipMode::Carrying(Shape::Rect(spawned_rect_s()), Vec2 { x: 0, y: 0 }),
            ) && accepted,
            old(self).mode == Mode::Unpaused ==> final(self).mode == Mode::Unpaused && !accepted,
    {
        match self.mode {
            Mode::Paused(_) => {
                let rect = Rect::from_centre(
                    Vec2 { x: SPAWN_X, y: SPAWN_Y },
                    Vec2 { x: DEFAULT_WIDTH, y: DEFAULT_HEIGHT },
                    Rot::identity(),
                );
                self.mode = Mode::Paused(
                    ManipMode::Carrying(Shape::Rect(rect), Vec2 { x: 0, y: 0 }),
                );
                true
            },
            Mode::Unpaused => false,
        }
    }

    /// One running frame: every shape integrates one timestep; the moved
    /// collection is scanned for intersecting pairs; if there are any, the
    /// motion is discarded and the collision pass runs over the
    /// pre-integration collection instead. Paused, the frame does nothing.
    #[verifier::rlimit(50)]
    pub fn step(&mut self, gravity: &Vec2)
        requires
            old(self).wf(),
            in_mag(*gravity, VEL_LIMIT as int),
        ensures
            final(self).wf(),
            final(self).mode == old(self).mode,
            old(self).mode == Mode::Unpaused ==> final(self).objects@ == step_objects_s(
                old(self).objects@,
                *gravity,
            ),
            old(self).mode != Mode::Unpaused ==> *final(self) == *old(self),
    {
        match self.mode {
            Mode::Unpaused => (),
            _ => {
                return ;
            },
        }
        let n: usize = self.objects.len();
        let mut archive: Vec<Shape> = Vec::new();
        let mut k: usize = 0;
        while k < n
            invariant
                n == self.objects@.len(),
                k <= n,
                archive@ == self.objects@.take(k as int),
            decreases n - k,
        {
            archive.push(self.objects[k]);
            k = k + 1;
        }
        proof {
            assert(archive@ =~= self.objects@);
        }
        let mut k: usize = 0;
        while k < n
            invariant
                old(self).wf(),
                in_mag(*gravity, VEL_LIMIT as int),
                self.mode == old(self).mode,
                n == self.objects@.len(),
                n == old(self).objects@.len(),
                k <= n,
                forall|t: int|
                    0 <= t < k ==> self.objects@[t] == shape_integrated_s(
                        old(self).objects@[t],
                        *gravity,
                    ) && (#[trigger] self.objects@[t]).wf(),
                forall|t: int| k <= t < n ==> self.objects@[t] == old(self).objects@[t],
            decreases n - k,
        {
            let mut s: Shape = self.objects[k];
            assert(s.wf());
            s.integrate(gravity);
            self.objects[k] = s;
            k = k + 1;
        }
        proof {
            assert(self.objects@ =~= integrate_all_s(old(self).objects@, *gravity));
        }
        let pairs = detectIntersections(&self.objects);
        if pairs.len() > 0 {
            let np: usize = pairs.len();
            let ghost arch0 = archive@;
            let ghost allpairs = pairs@;
            proof {
                assert(pairs@.skip(0) =~= pairs@);
            }
            let mut k: usize = 0;
            while k < np
                invariant
                    np == pairs@.len(),
                    k <= np,
                    pairs@ == allpairs,
                    archive@.len() == arch0.len(),
                    all_wf(archive@),
                    forall|t: int|
                        0 <= t < pairs@.len() ==> (#[trigger] pairs@[t]).0 < pairs@[t].1
                            && pairs@[t].1 < arch0.len(),
                    bounce_fold_s(archive@, pairs@.skip(k as int)) == bounce_fold_s(
                        arch0,
                        allpairs,
                    ),
                decreases np - k,
            {
                let (i1, i2): (usize, usize) = pairs[k];
                let snapshot: Shape = archive[i1];
                let s2: Shape = archive[i2];
                let mut s1: Shape = snapshot;
                s1.bounce(&s2);
                archive[i1] = s1;
                let mut s2m: Shape = archive[i2];
                s2m.bounce(&snapshot);
                archive[i2] = s2m;
                proof {
                    let tail = pairs@.skip(k as int);
                    assert(tail[0] == pairs@[k as int]);
                    assert(tail.drop_first() =~= pairs@.skip(k as int + 1));
                    assert forall|t: int| 0 <= t < archive@.len() implies (#[trigger] archive@[t]).wf() by {
                    }
                }
                k = k + 1;
            }
            proof {
                assert(pairs@.skip(np as int) =~= Seq::<(usize, usize)>::empty());
                assert(bounce_fold_s(archive@, pairs@.skip(np as int)) == archive@);
            }
            self.objects = archive;
        }
    }
}

} // verus!
