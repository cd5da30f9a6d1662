//! Which plane a ray meets first, and which portal a camera step crosses.

use vstd::prelude::*;
use crate::plane::Plane;
use crate::ray::{Hit, Ray};
use crate::single::Single;
use crate::transform::Transform;
use crate::vector3::Vector3;

verus! {

/// A camera step through a connected portal: from the plane that was
/// crossed to the plane its portal leads to.
#[derive(Clone, Copy, Debug, PartialEq, Eq, Structural)]
pub struct Hop {
    pub source: usize,
    pub target: usize,
}

/// Where a ray meets each plane of the list, the plane at `i` placed by the
/// transform at `i`. A plane without a transform is not met.
pub open spec fn hits_of(planes: Seq<Plane>, transforms: Seq<Transform>, ray: Ray) -> Seq<
    Option<Hit>,
> {
    Seq::new(
        planes.len(),
        |i: int|
            if i < transforms.len() {
                planes[i].intersection(transforms[i], ray)
            } else {
                None
            },
    )
}

/// The nearest of the hits, one entry per plane, as a pass from the first
/// plane to the last finds it: a later hit takes the place of the nearest so
/// far only where its distance is smaller.
pub open spec fn closest_of(hits: Seq<Option<Hit>>) -> Option<(int, Hit)>
    decreases hits.len(),
{
    if hits.len() == 0 {
        None
    } else {
        let before = closest_of(hits.drop_last());
        match hits.last() {
            None => before,
            Some(hit) => match before {
                None => Some((hits.len() - 1, hit)),
                Some((_, nearest)) => if hit.distance.less(nearest.distance) {
                    Some((hits.len() - 1, hit))
                } else {
                    before
                },
            },
        }
    }
}

/// Every hit has a distance that is a number.
pub open spec fn distances_defined(hits: Seq<Option<Hit>>) -> bool {
    forall|j: int|
        0 <= j < hits.len() ==> ((#[trigger] hits[j]) matches Some(hit)
            ==> !hit.distance.undefined())
}

/// `i` is the first of the planes with the nearest hit: no plane is hit
/// nearer, and none before `i` is hit as near.
pub open spec fn is_closest(hits: Seq<Option<Hit>>, i: int) -> bool {
    &&& 0 <= i < hits.len()
    &&& hits[i] is Some
    &&& forall|j: int|
        0 <= j < hits.len() && (#[trigger] hits[j]) is Some ==> hits[i]->0.distance.scaled()
            <= hits[j]->0.distance.scaled()
    &&& forall|j: int|
        0 <= j < i && (#[trigger] hits[j]) is Some ==> hits[i]->0.distance.scaled()
            < hits[j]->0.distance.scaled()
}

/// The pass finds a hit exactly where there is one, and the hit it finds is
/// the entry of its plane.
pub proof fn lemma_closest_is_a_hit(hits: Seq<Option<Hit>>)
    ensures
        closest_of(hits) is None <==> (forall|j: int|
            0 <= j < hits.len() ==> (#[trigger] hits[j]) is None),
        closest_of(hits) matches Some((i, hit)) ==> 0 <= i < hits.len() && hits[i] == Some(hit),
    decreases hits.len(),
{
    if hits.len() > 0 {
        let rest = hits.drop_last();
        lemma_closest_is_a_hit(rest);
        assert forall|j: int| 0 <= j < rest.len() implies rest[j] == hits[j] by {}
        if closest_of(hits) is None {
            assert forall|j: int| 0 <= j < hits.len() implies (#[trigger] hits[j]) is None by {
                if j < rest.len() {
                    assert(rest[j] is None);
                }
            }
        } else {
            if hits.last() is None {
                let (i, _) = closest_of(rest)->0;
                assert(hits[i] is Some);
            } else {
                assert(hits[hits.len() - 1] is Some);
            }
        }
    }
}

/// Where every distance is a number, the pass finds the nearest hit, and
/// among equally near hits the one of the first plane.
pub proof fn lemma_closest_is_nearest(hits: Seq<Option<Hit>>)
    requires
        distances_defined(hits),
    ensures
        closest_of(hits) matches Some((i, _)) ==> is_closest(hits, i),
    decreases hits.len(),
{
    if hits.len() > 0 {
        let rest = hits.drop_last();
        let last = hits.len() - 1;
        assert forall|j: int| 0 <= j < rest.len() implies rest[j] == hits[j] by {}
        assert(distances_defined(rest)) by {
            assert forall|j: int| 0 <= j < rest.len() implies ((#[trigger] rest[j]) matches Some(
                hit,
            ) ==> !hit.distance.undefined()) by {
                assert(rest[j] == hits[j]);
            }
        }
        lemma_closest_is_nearest(rest);
        lemma_closest_is_a_hit(rest);
        lemma_closest_is_a_hit(hits);
        match closest_of(hits) {
            None => {},
            Some((i, found)) => {
                assert(hits[i] == Some(found));
                assert forall|j: int| 0 <= j < hits.len() && (#[trigger] hits[j]) is Some implies found.distance.scaled()
                    <= hits[j]->0.distance.scaled() by {
                    if j < last {
                        assert(rest[j] is Some);
                    }
                    assert(hits[last] == hits.last());
                }
                assert forall|j: int| 0 <= j < i && (#[trigger] hits[j]) is Some implies found.distance.scaled()
                    < hits[j]->0.distance.scaled() by {
                    assert(rest[j] is Some);
                    assert(hits[last] == hits.last());
                }
            },
        }
    }
}

/// Meets a ray with each plane of the list, the plane at `i` placed by the
/// transform at `i`.
pub fn intersect_all(planes: &Vec<Plane>, transforms: &Vec<Transform>, ray: &Ray) -> (hits: Vec<
    Option<Hit>,
>)
    ensures
        hits@ == hits_of(planes@, transforms@, *ray),
{
    let mut hits: Vec<Option<Hit>> = Vec::new();
    let mut i: usize = 0;
    while i < planes.len()
        invariant
            i <= planes.len(),
            hits@ == hits_of(planes@, transforms@, *ray).subrange(0, i as int),
        decreases planes.len() - i,
    {
        let hit = if i < transforms.len() {
            planes[i].intersect(&transforms[i], ray)
        } else {
            None
        };
        hits.push(hit);
        i += 1;
        assert(hits@ =~= hits_of(planes@, transforms@, *ray).subrange(0, i as int));
    }
    assert(hits@ =~= hits_of(planes@, transforms@, *ray));
    hits
}

/// The nearest of the hits, one entry per plane, with the index of its plane.
///
/// The hits are passed from the first plane to the last, and a hit takes the
/// place of the nearest so far only where its distance is smaller. So among
/// equally near hits the first plane wins, and a distance that is no number
/// is never smaller than another nor another smaller than it.
pub fn closest_hit(hits: &Vec<Option<Hit>>) -> (r: Option<(usize, Hit)>)
    ensures
        r is None <==> closest_of(hits@) is None,
        r matches Some((i, hit)) ==> closest_of(hits@) == Some((i as int, hit)),
        r is None <==> (forall|j: int| 0 <= j < hits.len() ==> (#[trigger] hits[j]) is None),
        r matches Some((i, hit)) ==> i < hits.len() && hits[i as int] == Some(hit),
        distances_defined(hits@) ==> (r matches Some((i, _)) ==> is_closest(hits@, i as int)),
{
    let mut best: Option<(usize, Hit)> = None;
    let mut i: usize = 0;
    while i < hits.len()
        invariant
            i <= hits.len(),
            best is None <==> closest_of(hits@.subrange(0, i as int)) is None,
            best matches Some((b, hit)) ==> closest_of(hits@.subrange(0, i as int)) == Some(
                (b as int, hit),
            ),
        decreases hits.len() - i,
    {
        proof {
            let next = hits@.subrange(0, i + 1);
            assert(next.drop_last() =~= hits@.subrange(0, i as int));
            assert(next.last() == hits[i as int]);
        }
        match hits[i] {
            Some(hit) => {
                match best {
                    Some((_, nearest)) => {
                        if hit.distance.lt(&nearest.distance) {
                            best = Some((i, hit));
                        }
                    },
                    None => {
                        best = Some((i, hit));
                    },
                }
            },
            None => {},
        }
        i += 1;
    }
    proof {
        assert(hits@.subrange(0, i as int) =~= hits@);
        lemma_closest_is_a_hit(hits@);
        if distances_defined(hits@) {
            lemma_closest_is_nearest(hits@);
        }
    }
    best
}

/// The hop that a camera step takes: the nearest hit lies short of the
/// length of the step, on a plane of the list, and the side that was hit
/// leads to a plane of the list.
pub open spec fn crossing_of(planes: Seq<Plane>, hits: Seq<Option<Hit>>, travel: Single) -> Option<
    Hop,
> {
    match closest_of(hits) {
        Some((source, hit)) => if source < planes.len() && hit.distance.less(travel) {
            match planes[source].side(hit.front).other_index {
                Some(target) => if target < planes.len() {
                    Some(Hop { source: source as usize, target })
                } else {
                    None
                },
                None => None,
            }
        } else {
            None
        },
        None => None,
    }
}

/// A camera that stays in place takes no hop: no distance that is zero or
/// more lies short of a step of length zero.
pub proof fn lemma_no_hop_in_place(planes: Seq<Plane>, hits: Seq<Option<Hit>>, travel: Single)
    requires
        travel.weight() == 0,
        forall|j: int|
            0 <= j < hits.len() ==> ((#[trigger] hits[j]) matches Some(hit)
                ==> !hit.distance.negative()),
    ensures
        crossing_of(planes, hits, travel) is None,
{
    lemma_closest_is_a_hit(hits);
    match closest_of(hits) {
        Some((source, hit)) => {
            assert(hits[source] == Some(hit));
            hit.distance.lemma_weight_of_zero();
        },
        None => {},
    }
}

/// The portal that a camera step crosses, if any.
///
/// `hits` holds, plane by plane, where the ray of the step meets the plane,
/// and `travel` is the length of the step. The step crosses a portal when the
/// nearest hit lies short of `travel` and the side that was hit is linked to
/// an existing plane. Only the nearest hit is looked at, so a step takes at
/// most one hop.
pub fn crossing(planes: &Vec<Plane>, hits: &Vec<Option<Hit>>, travel: Single) -> (r: Option<Hop>)
    ensures
        r == crossing_of(planes@, hits@, travel),
        r matches Some(hop) ==> {
            &&& hop.source < planes.len()
            &&& hop.target < planes.len()
            &&& hop.source < hits.len()
            &&& hits[hop.source as int] matches Some(hit)
            &&& hit.distance.less(travel)
            &&& planes[hop.source as int].side(hit.front).other_index == Some(hop.target)
        },
{
    proof {
        lemma_closest_is_a_hit(hits@);
    }
    match closest_hit(hits) {
        Some((source, hit)) => {
            if source < planes.len() && hit.distance.lt(&travel) {
                match planes[source].portal(hit.front).target(planes.len()) {
                    Some(target) => Some(Hop { source, target }),
                    None => None,
                }
            } else {
                None
            }
        },
        None => None,
    }
}

/// The ray of a camera step: from the old position towards the new one.
pub open spec fn step_ray(old_position: Vector3, new_position: Vector3) -> Ray {
    Ray { origin: old_position, direction: new_position.difference(old_position).direction() }
}

/// The hop that a camera step from `old_position` to `new_position` takes
/// among planes placed by `transforms`: the portal that the step crosses,
/// where both of its planes have a transform.
pub open spec fn step_hop(
    planes: Seq<Plane>,
    transforms: Seq<Transform>,
    old_position: Vector3,
    new_position: Vector3,
) -> Option<Hop> {
    let hits = hits_of(planes, transforms, step_ray(old_position, new_position));
    match crossing_of(planes, hits, new_position.difference(old_position).length()) {
        Some(hop) => if hop.target < transforms.len() {
            Some(hop)
        } else {
            None
        },
        None => None,
    }
}

/// Finds the portal that a camera step crosses.
///
/// The ray runs from the old position towards the new one and is met with
/// every plane. The step crosses the portal of the nearest hit where that
/// hit lies short of the length of the step and its side is linked.
pub fn find_hop(
    planes: &Vec<Plane>,
    transforms: &Vec<Transform>,
    old_position: &Vector3,
    new_position: &Vector3,
) -> (r: Option<Hop>)
    ensures
        r == step_hop(planes@, transforms@, *old_position, *new_position),
        r matches Some(hop) ==> hop.source < planes.len() && hop.target < planes.len()
            && hop.source < transforms.len() && hop.target < transforms.len(),
{
    let step = new_position.minus(old_position);
    let ray = Ray { origin: *old_position, direction: step.normalised() };
    let hits = intersect_all(planes, transforms, &ray);
    match crossing(planes, &hits, step.magnitude()) {
        Some(hop) => if hop.target < transforms.len() {
            Some(hop)
        } else {
            None
        },
        None => None,
    }
}

} // verus!
