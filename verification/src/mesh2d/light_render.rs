use vstd::prelude::*;

verus! {

/// Number of point-light slots in the lights uniform that each 2D view gets.
pub const MAX_POINT_LIGHTS: usize = 32;

/// How the extracted point lights fill the lights uniform of a view.
#[derive(Clone, Debug, PartialEq, Eq)]
pub struct GpuLightsLayout {
    /// One entry per uniform slot: `Some(j)` when the slot holds the `j`-th extracted light,
    /// `None` when it keeps the default (zeroed) light.
    pub point_lights: Vec<Option<usize>>,
    /// Number of slots that hold a light.
    pub n_point_lights: u32,
}

/// The smaller of `a` and `b`.
pub open spec fn spec_min(a: int, b: int) -> int {
    if a <= b {
        a
    } else {
        b
    }
}

/// Lays out the lights uniform for `point_light_count` extracted lights: the first
/// `MAX_POINT_LIGHTS` lights, in extraction order, fill the slots from the first one on; the
/// remaining slots keep the default light, and lights past the last slot are left out.
pub fn prepare_lights(point_light_count: usize) -> (layout: GpuLightsLayout)
    ensures
        layout.point_lights@.len() == MAX_POINT_LIGHTS,
        forall|i: int|
            0 <= i < MAX_POINT_LIGHTS ==> #[trigger] layout.point_lights@[i] == if i
                < point_light_count {
                Some(i as usize)
            } else {
                None
            },
        layout.n_point_lights == spec_min(point_light_count as int, MAX_POINT_LIGHTS as int),
        layout.n_point_lights <= point_light_count,
        layout.n_point_lights <= MAX_POINT_LIGHTS,
        layout.n_point_lights == point_light_count || layout.n_point_lights == MAX_POINT_LIGHTS,
{
    let mut point_lights: Vec<Option<usize>> = Vec::new();
    for k in 0..MAX_POINT_LIGHTS
        invariant
            point_lights@.len() == k,
            forall|i: int| 0 <= i < k ==> #[trigger] point_lights@[i] == None::<usize>,
    {
        point_lights.push(None);
    }
    let mut index: usize = 0;
    while index < point_light_count && index < MAX_POINT_LIGHTS
        invariant
            index <= MAX_POINT_LIGHTS,
            index <= point_light_count,
            point_lights@.len() == MAX_POINT_LIGHTS,
            forall|i: int|
                0 <= i < MAX_POINT_LIGHTS ==> #[trigger] point_lights@[i] == if i < index {
                    Some(i as usize)
                } else {
                    None
                },
        decreases MAX_POINT_LIGHTS - index,
    {
        point_lights.set(index, Some(index));
        index = index + 1;
    }
    let n_point_lights: u32 = if point_light_count < MAX_POINT_LIGHTS {
        point_light_count as u32
    } else {
        MAX_POINT_LIGHTS as u32
    };
    GpuLightsLayout { point_lights, n_point_lights }
}

} // verus!
