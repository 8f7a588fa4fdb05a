//! The scene's light collection.
//!
//! Lights come in two kinds — directional and point — and are kept in two
//! dense lists. For the GPU they are packed into one storage buffer laid out
//! as: a two-scalar header holding the two counts, then one 16-scalar record
//! per directional light, then one 20-scalar record per point light (each
//! record padded to four-scalar groups). The payload types are opaque here;
//! the application owns their fields and writes the scalars, but the counts
//! and the packed length are decided and checked here.
use vstd::prelude::*;

verus! {

/// One light of either kind.
pub enum Light<D, P> {
    Directional(D),
    Point(P),
}

/// Scalars in the packed header: the two light counts.
pub const LIGHT_HEADER_SCALARS: usize = 2;

/// Scalars in one packed directional-light record.
pub const DIRECTIONAL_LIGHT_SCALARS: usize = 16;

/// Scalars in one packed point-light record.
pub const POINT_LIGHT_SCALARS: usize = 20;

/// Number of scalars in the packed light buffer for `d` directional and
/// `p` point lights.
pub open spec fn spec_light_data_len(d: int, p: int) -> int {
    LIGHT_HEADER_SCALARS + DIRECTIONAL_LIGHT_SCALARS * d + POINT_LIGHT_SCALARS * p
}

/// The light collection, generic over the two payload types.
pub struct LightManager<D, P> {
    pub directional_lights: Vec<D>,
    pub point_lights: Vec<P>,
}

impl<D, P> LightManager<D, P> {
    /// An empty collection.
    pub fn new() -> (m: LightManager<D, P>)
        ensures
            m.directional_lights@.len() == 0,
            m.point_lights@.len() == 0,
    {
        LightManager { directional_lights: Vec::new(), point_lights: Vec::new() }
    }

    /// Append the light to the list of its kind; the other list is
    /// untouched.
    pub fn add_light(&mut self, light: Light<D, P>)
        ensures
            match light {
                Light::Directional(d) => final(self).directional_lights@ == old(
                    self,
                ).directional_lights@.push(d) && final(self).point_lights == old(self).point_lights,
                Light::Point(p) => final(self).point_lights@ == old(self).point_lights@.push(p)
                    && final(self).directional_lights == old(self).directional_lights,
            },
    {
        match light {
            Light::Directional(d) => {
                self.directional_lights.push(d);
            },
            Light::Point(p) => {
                self.point_lights.push(p);
            },
        }
    }

    /// How many scalars the packed buffer for this collection holds: the
    /// two-scalar header plus one fixed-size record per light.
    pub fn buffer_scalar_count(&self) -> (n: usize)
        requires
            spec_light_data_len(
                self.directional_lights@.len() as int,
                self.point_lights@.len() as int,
            ) <= usize::MAX,
        ensures
            n == spec_light_data_len(
                self.directional_lights@.len() as int,
                self.point_lights@.len() as int,
            ),
    {
        LIGHT_HEADER_SCALARS + DIRECTIONAL_LIGHT_SCALARS * self.directional_lights.len()
            + POINT_LIGHT_SCALARS * self.point_lights.len()
    }
}

impl<D, P> Default for LightManager<D, P> {
    /// Same as `new`: an empty collection.
    fn default() -> (m: LightManager<D, P>)
        ensures
            m.directional_lights@.len() == 0,
            m.point_lights@.len() == 0,
    {
        LightManager::new()
    }
}

} // verus!
