use vstd::prelude::*;

verus! {

/// Number of fixed-point steps in one field unit.
pub const UNIT: i64 = 1000;

/// An axis-aligned rectangle with a velocity and an RGBA color.
///
/// `(x, y)` is the top-left corner; `dx` and `dy` are added to it on each
/// step. A well-formed entity has a positive width and height.
#[derive(Clone, Copy, Debug)]
pub struct Entity {
    pub x: i64,
    pub y: i64,
    pub dx: i64,
    pub dy: i64,
    pub width: i64,
    pub height: i64,
    pub color: [u8; 4],
}

/// The mathematical value of an [`Entity`], with unbounded coordinates.
pub struct EntityModel {
    pub x: int,
    pub y: int,
    pub dx: int,
    pub dy: int,
    pub width: int,
    pub height: int,
    pub color: [u8; 4],
}

impl View for Entity {
    type V = EntityModel;

    open spec fn view(&self) -> EntityModel {
        EntityModel {
            x: self.x as int,
            y: self.y as int,
            dx: self.dx as int,
            dy: self.dy as int,
            width: self.width as int,
            height: self.height as int,
            color: self.color,
        }
    }
}

impl EntityModel {
    /// Width and height are positive.
    pub open spec fn wf(self) -> bool {
        self.width > 0 && self.height > 0
    }

    /// The entity moved by its velocity.
    pub open spec fn stepped(self) -> EntityModel {
        EntityModel { x: self.x + self.dx, y: self.y + self.dy, ..self }
    }

    /// The entity moved against its velocity.
    pub open spec fn stepped_back(self) -> EntityModel {
        EntityModel { x: self.x - self.dx, y: self.y - self.dy, ..self }
    }

    /// The same entity with another velocity.
    pub open spec fn with_velocity(self, dx: int, dy: int) -> EntityModel {
        EntityModel { dx, dy, ..self }
    }

    /// The point `(px, py)` lies in the closed rectangle.
    pub open spec fn has_point(self, px: int, py: int) -> bool {
        self.x <= px <= self.x + self.width && self.y <= py <= self.y + self.height
    }

    /// The closed rectangles overlap; edges that touch count as overlapping.
    pub open spec fn intersects(self, other: EntityModel) -> bool {
        !(self.x > other.x + other.width || self.x + self.width < other.x || self.y > other.y
            + other.height || self.y + self.height < other.y)
    }

    /// `other` lies entirely within this rectangle; touching its edges is allowed.
    pub open spec fn contains(self, other: EntityModel) -> bool {
        &&& self.x <= other.x
        &&& other.x + other.width <= self.x + self.width
        &&& self.y <= other.y
        &&& other.y + other.height <= self.y + self.height
    }
}

/// The value fits in an `i64`.
pub open spec fn fits_i64(v: int) -> bool {
    i64::MIN <= v <= i64::MAX
}

impl Entity {
    /// Moves the entity by its velocity.
    pub fn step(&mut self)
        requires
            fits_i64(old(self).x + old(self).dx),
            fits_i64(old(self).y + old(self).dy),
        ensures
            final(self)@ == old(self)@.stepped(),
    {
        self.x = self.x + self.dx;
        self.y = self.y + self.dy;
    }

    /// Moves the entity against its velocity, undoing a `step`.
    pub fn step_back(&mut self)
        requires
            fits_i64(old(self).x - old(self).dx),
            fits_i64(old(self).y - old(self).dy),
        ensures
            final(self)@ == old(self)@.stepped_back(),
    {
        self.x = self.x - self.dx;
        self.y = self.y - self.dy;
    }

    /// Whether the two rectangles overlap, touching edges included.
    pub fn intersects(&self, other: &Entity) -> (r: bool)
        requires
            fits_i64(self.x + self.width),
            fits_i64(self.y + self.height),
            fits_i64(other.x + other.width),
            fits_i64(other.y + other.height),
        ensures
            r == self@.intersects(other@),
    {
        !(self.x > other.x + other.width || self.x + self.width < other.x || self.y > other.y
            + other.height || self.y + self.height < other.y)
    }

    /// Whether `other` lies entirely within this rectangle, edges included.
    pub fn contains(&self, other: &Entity) -> (r: bool)
        requires
            fits_i64(self.x + self.width),
            fits_i64(self.y + self.height),
            fits_i64(other.x + other.width),
            fits_i64(other.y + other.height),
        ensures
            r == self@.contains(other@),
    {
        other.x >= self.x && other.x + other.width <= self.x + self.width && other.y >= self.y
            && other.y + other.height <= self.y + self.height
    }
}

/// Overlap does not depend on the order of the two entities.
pub proof fn lemma_intersects_symmetric(a: EntityModel, b: EntityModel)
    ensures
        a.intersects(b) == b.intersects(a),
{
}

/// One entity contains another exactly when every point of the other lies in
/// it; in particular an entity none of whose points lies in the container is
/// not contained in it.
pub proof fn lemma_contains_iff_all_points_inside(a: EntityModel, b: EntityModel)
    requires
        b.wf(),
    ensures
        a.contains(b) <==> (forall|px: int, py: int| b.has_point(px, py) ==> a.has_point(px, py)),
        (forall|px: int, py: int| b.has_point(px, py) ==> !a.has_point(px, py)) ==> !a.contains(b),
{
    if forall|px: int, py: int| b.has_point(px, py) ==> a.has_point(px, py) {
        assert(b.has_point(b.x, b.y));
        assert(b.has_point(b.x + b.width, b.y + b.height));
    }
    if forall|px: int, py: int| b.has_point(px, py) ==> !a.has_point(px, py) {
        assert(b.has_point(b.x, b.y));
    }
}

/// Stepping back right after a step restores the position, for any velocity.
pub proof fn lemma_step_back_undoes_step(e: EntityModel)
    ensures
        e.stepped().stepped_back() == e,
{
}

} // verus!
