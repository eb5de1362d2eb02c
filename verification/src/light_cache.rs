//! When a light's polygon has to be traced again.
//!
//! Tracing a light polygon (casting rays against every obstacle) is costly,
//! so each light keeps the last polygon it traced. The polygon is reused
//! while the light stands still; once it has moved, it is reused only if the
//! last polygon touched no obstacle and the light still touches none.
//! Growing a light's reach throws the polygon away.

use vstd::prelude::*;

verus! {

/// The traced polygon of a light, with what is known of how it was traced.
#[derive(Debug)]
pub struct LightPolygonCache<P> {
    /// The last traced polygon, if it is still usable.
    pub polygon: Option<Vec<P>>,
    /// Whether the light has moved since the polygon was traced.
    pub has_moved: bool,
    /// Whether the polygon touched an obstacle when it was traced.
    pub has_collided: bool,
}

impl<P> LightPolygonCache<P> {
    /// The polygon that may be reused, given whether the light's reach
    /// touches an obstacle now; `None` when the polygon must be traced again.
    pub open spec fn reuse(&self, collides_now: bool) -> Option<Vec<P>> {
        match self.polygon {
            Some(polygon) => if !self.has_moved || (!self.has_collided && !collides_now) {
                Some(polygon)
            } else {
                None
            },
            None => None,
        }
    }

    /// A cache with no polygon, for a light that has not moved.
    pub fn new() -> (cache: Self)
        ensures
            cache.polygon is None,
            !cache.has_moved,
            !cache.has_collided,
    {
        LightPolygonCache { polygon: None, has_moved: false, has_collided: false }
    }

    /// Throws the polygon away, so that the next request traces it again.
    pub fn invalidate(&mut self)
        ensures
            final(self).polygon is None,
            final(self).has_moved == old(self).has_moved,
            final(self).has_collided == old(self).has_collided,
    {
        self.polygon = None;
    }

    /// Whether deciding on reuse needs to know if the light's reach touches
    /// an obstacle now: only a polygon of a moved light that touched nothing
    /// when it was traced depends on it.
    pub fn needs_collision_check(&self) -> (needed: bool)
        ensures
            needed == (self.polygon is Some && self.has_moved && !self.has_collided),
    {
        self.polygon.is_some() && self.has_moved && !self.has_collided
    }

    /// The polygon to draw without tracing, given whether the light's reach
    /// touches an obstacle now, or `None` when it has to be traced again.
    pub fn reusable_polygon(&self, collides_now: bool) -> (polygon: Option<&Vec<P>>)
        ensures
            polygon is Some <==> self.reuse(collides_now) is Some,
            polygon matches Some(p) ==> *p == self.reuse(collides_now).unwrap(),
    {
        match &self.polygon {
            Some(p) => {
                if !self.has_moved || (!self.has_collided && !collides_now) {
                    Some(p)
                } else {
                    None
                }
            },
            None => None,
        }
    }

    /// Keeps a freshly traced polygon, and whether tracing it touched an
    /// obstacle; the light counts as standing still again.
    pub fn store(&mut self, polygon: Vec<P>, collided: bool)
        ensures
            final(self).polygon == Some(polygon),
            !final(self).has_moved,
            final(self).has_collided == collided,
    {
        self.polygon = Some(polygon);
        self.has_moved = false;
        self.has_collided = collided;
    }

    /// A polygon that was just traced is drawn again, whatever the obstacles
    /// do, until the light moves.
    pub proof fn lemma_stored_polygon_is_reused(cache: Self, polygon: Vec<P>, collided: bool, collides_now: bool)
        requires
            cache.polygon == Some(polygon),
            !cache.has_moved,
            cache.has_collided == collided,
        ensures
            cache.reuse(collides_now) == Some(polygon),
    {
    }

    /// A light without a polygon (new, or whose polygon was thrown away)
    /// always traces its polygon.
    pub proof fn lemma_missing_polygon_is_traced(cache: Self, collides_now: bool)
        requires
            cache.polygon is None,
        ensures
            cache.reuse(collides_now) is None,
    {
    }

    /// A light that moved after its polygon touched an obstacle traces its
    /// polygon again.
    pub proof fn lemma_moved_past_obstacle_is_traced(cache: Self, collides_now: bool)
        requires
            cache.has_moved,
            cache.has_collided,
        ensures
            cache.reuse(collides_now) is None,
    {
    }

    /// A light that moved traces its polygon again exactly when it touched an
    /// obstacle before or touches one now.
    pub proof fn lemma_moved_light_reuse(cache: Self, polygon: Vec<P>, collides_now: bool)
        requires
            cache.polygon == Some(polygon),
            cache.has_moved,
        ensures
            cache.reuse(collides_now) is None <==> (cache.has_collided || collides_now),
            !(cache.has_collided || collides_now) ==> cache.reuse(collides_now) == Some(polygon),
    {
    }

    /// Where no collision check is needed, its outcome cannot change the
    /// decision, so skipping it is safe.
    pub proof fn lemma_collision_check_only_where_needed(cache: Self)
        ensures
            !(cache.polygon is Some && cache.has_moved && !cache.has_collided)
                ==> cache.reuse(true) == cache.reuse(false),
    {
    }
}

} // verus!
