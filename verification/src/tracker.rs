//! Direction tracking: once per scene update, each emitter's direction
//! vector is recomputed as `emitter - nearest listener`, where "nearest"
//! means minimal squared Euclidean distance and ties keep the listener
//! that comes first in iteration order. With no listener present the
//! direction is left untouched.

use crate::vec3::{dist_sq_spec, FxVec3};
use vstd::prelude::*;

verus! {

/// All positions of the sequence lie within the accepted coordinate range.
pub open spec fn all_in_bounds(s: Seq<FxVec3>) -> bool {
    forall|i: int| 0 <= i < s.len() ==> (#[trigger] s[i]).in_bounds()
}

/// Index `i` holds the first listener of `s` at minimal squared distance
/// from `e`: every earlier listener is strictly farther, and no listener
/// is nearer.
pub open spec fn is_first_nearest(e: FxVec3, s: Seq<FxVec3>, i: int) -> bool {
    &&& 0 <= i < s.len()
    &&& forall|j: int| 0 <= j < i ==> dist_sq_spec(e, #[trigger] s[j]) > dist_sq_spec(e, s[i])
    &&& forall|j: int|
        0 <= j < s.len() ==> dist_sq_spec(e, #[trigger] s[j]) >= dist_sq_spec(e, s[i])
}

/// The listener position nearest to the emitter, or `None` when no
/// listener exists. On equal distances the first listener wins.
pub fn find_closest_listener(emitter: FxVec3, listeners: &Vec<FxVec3>) -> (r: Option<FxVec3>)
    requires
        emitter.in_bounds(),
        all_in_bounds(listeners@),
    ensures
        r is None <==> listeners@.len() == 0,
        r matches Some(p) ==> exists|i: int|
            #[trigger] is_first_nearest(emitter, listeners@, i) && p == listeners@[i],
{
    if listeners.len() == 0 {
        return None;
    }
    let mut best_i: usize = 0;
    let mut best_d: i64 = emitter.dist_sq(listeners[0]);
    let mut k: usize = 1;
    while k < listeners.len()
        invariant
            1 <= k <= listeners@.len(),
            0 <= best_i < k,
            emitter.in_bounds(),
            all_in_bounds(listeners@),
            best_d == dist_sq_spec(emitter, listeners@[best_i as int]),
            forall|j: int|
                0 <= j < best_i ==> dist_sq_spec(emitter, #[trigger] listeners@[j]) > best_d,
            forall|j: int|
                0 <= j < k ==> dist_sq_spec(emitter, #[trigger] listeners@[j]) >= best_d,
        decreases listeners@.len() - k,
    {
        let d: i64 = emitter.dist_sq(listeners[k]);
        if d < best_d {
            best_d = d;
            best_i = k;
        }
        k = k + 1;
    }
    proof {
        assert(is_first_nearest(emitter, listeners@, best_i as int));
    }
    Some(listeners[best_i])
}

/// Recompute an emitter's direction from the scene: the vector from the
/// nearest listener to the emitter. With zero listeners the direction is
/// unchanged.
pub fn update_direction(direction: &mut FxVec3, emitter: FxVec3, listeners: &Vec<FxVec3>)
    requires
        emitter.in_bounds(),
        all_in_bounds(listeners@),
    ensures
        listeners@.len() == 0 ==> *final(direction) == *old(direction),
        listeners@.len() > 0 ==> exists|i: int|
            #[trigger] is_first_nearest(emitter, listeners@, i) && final(direction).x
                == emitter.x - listeners@[i].x && final(direction).y == emitter.y
                - listeners@[i].y && final(direction).z == emitter.z - listeners@[i].z,
        listeners@.len() > 0 ==> final(direction).dir_bounds(),
{
    let closest: Option<FxVec3> = find_closest_listener(emitter, listeners);
    match closest {
        None => {},
        Some(listener_pos) => {
            proof {
                let i = choose|i: int|
                    is_first_nearest(emitter, listeners@, i) && listener_pos == listeners@[i];
                assert(listeners@[i].in_bounds());
            }
            *direction = emitter.sub(listener_pos);
        },
    }
}

} // verus!
