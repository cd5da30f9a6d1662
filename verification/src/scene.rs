//! The scene, and the changes of its list of planes that keep the links
//! whole.
//!
//! A link names its target by position in the list, so every change of the
//! list has to leave each link on the plane it was made for, or cut it.

use vstd::prelude::*;
use crate::camera::Camera;
use crate::color::Color;
use crate::device::GpuCamera;
use crate::limits::{radians_of, to_radians};
use crate::plane::{GpuPlane, Plane};
use crate::portal::PortalConnection;
use crate::rotor::{Rotor, HALF, TWO};
use crate::settings::RenderSettings;
use crate::single::Single;
use crate::transform::Transform;
use crate::vector3::{Vector3, ONE};

verus! {

/// The pattern of 1.1, the height at which the camera starts.
pub const EYE_HEIGHT: u32 = 0x3f8c_cccd;

/// The pattern of 0.25, the turns per second of the camera at the start.
pub const QUARTER: u32 = 0x3e80_0000;

/// The pattern of 0.4.
pub const TWO_FIFTHS: u32 = 0x3ecc_cccd;

/// The pattern of 0.8.
pub const FOUR_FIFTHS: u32 = 0x3f4c_cccd;

/// The pattern of 0.2.
pub const ONE_FIFTH: u32 = 0x3e4c_cccd;

/// The pattern of 100, the intensity of the sun at the start.
pub const HUNDRED: u32 = 0x42c8_0000;

/// The pattern of 10, the side of the ground plane.
pub const TEN: u32 = 0x4120_0000;

/// The pattern of 6, the angular radius of the sun at the start, in degrees.
pub const SIX: u32 = 0x40c0_0000;

/// The camera, the sky and the sun, and the planes in their order.
///
/// The sky has one colour above the horizon and one below, each at its
/// intensity. The sun has a colour, an intensity, a direction and an angular
/// radius in radians.
#[derive(Debug)]
pub struct Scene {
    pub camera: Camera,
    pub up_sky_color: Color,
    pub up_sky_intensity: Single,
    pub down_sky_color: Color,
    pub down_sky_intensity: Single,
    pub sun_color: Color,
    pub sun_intensity: Single,
    pub sun_direction: Vector3,
    pub sun_size: Single,
    pub planes: Vec<Plane>,
}

impl Scene {
    /// The camera block of the device for this scene and these settings:
    /// the camera's transform, the sky and sun colours at their intensities,
    /// the direction of the sun at unit length, and the bounds of the trace.
    pub open spec fn camera_record(self, settings: RenderSettings) -> GpuCamera {
        GpuCamera {
            transform: self.camera.transform_of(),
            up_sky_color: self.up_sky_color.product(self.up_sky_intensity),
            down_sky_color: self.down_sky_color.product(self.down_sky_intensity),
            sun_color: self.sun_color.product(self.sun_intensity),
            sun_direction: self.sun_direction.direction(),
            sun_size: self.sun_size,
            recursive_portal_count: settings.recursive_portal_count,
            max_bounces: settings.max_bounces,
        }
    }

    /// Packs the camera, the sky and the sun for the device.
    pub fn gpu_camera(&self, settings: &RenderSettings) -> (r: GpuCamera)
        ensures
            r == self.camera_record(*settings),
    {
        GpuCamera {
            transform: self.camera.transform(),
            up_sky_color: self.up_sky_color.scaled(self.up_sky_intensity),
            down_sky_color: self.down_sky_color.scaled(self.down_sky_intensity),
            sun_color: self.sun_color.scaled(self.sun_intensity),
            sun_direction: self.sun_direction.normalised(),
            sun_size: self.sun_size,
            recursive_portal_count: settings.recursive_portal_count,
            max_bounces: settings.max_bounces,
        }
    }
}

impl Default for Scene {
    /// The camera at a height of 1.1, looking along X, at two units and a
    /// quarter turn per second; a blue sky above and a grey one below; a
    /// white sun of six degrees; and one plane, the ground: a red square of
    /// side ten with ten checker cells each way.
    fn default() -> (r: Scene)
        ensures
            r.camera == (Camera {
                position: Vector3::of_bits(0, EYE_HEIGHT, 0),
                rotation: Rotor::identity_of(),
                speed: Single { bits: TWO },
                rotation_speed: Single { bits: QUARTER },
            }),
            r.up_sky_color == Color::of_bits(TWO_FIFTHS, HALF, FOUR_FIFTHS),
            r.up_sky_intensity.bits == ONE,
            r.down_sky_color == Color::of_bits(TWO_FIFTHS, TWO_FIFTHS, TWO_FIFTHS),
            r.down_sky_intensity.bits == ONE,
            r.sun_color == Color::of_bits(ONE, ONE, ONE),
            r.sun_intensity.bits == HUNDRED,
            r.sun_direction == Vector3::of_bits(TWO_FIFTHS, ONE, ONE_FIFTH),
            r.sun_size == radians_of(Single { bits: SIX }),
            r.planes@.len() == 1,
            r.planes@[0].name@ == "Ground"@,
            r.planes@[0].position == Vector3::of_bits(0, 0, 0),
            r.planes@[0].xy_rotation.bits == 0 && r.planes@[0].yz_rotation.bits == 0
                && r.planes@[0].xz_rotation.bits == 0,
            r.planes@[0].width.bits == TEN && r.planes@[0].height.bits == TEN,
            r.planes@[0].checker_count_x == 10 && r.planes@[0].checker_count_z == 10,
            r.planes@[0].color == Color::of_bits(ONE, 0, 0),
            r.planes@[0].checker_darkness.bits == HALF,
            r.planes@[0].emissive_color == Color::of_bits(0, 0, 0),
            r.planes@[0].emission_intensity.bits == 0,
            r.planes@[0].emissive_checker_darkness.bits == HALF,
            r.planes@[0].front_portal == (PortalConnection { other_index: None, flip: false }),
            r.planes@[0].back_portal == (PortalConnection { other_index: None, flip: false }),
            links_valid(r.planes@),
            counts_positive(r.planes@),
    {
        let zero = Single { bits: 0 };
        let one = Single { bits: ONE };
        let half = Single { bits: HALF };
        let two_fifths = Single { bits: TWO_FIFTHS };
        let ground = Plane {
            name: "Ground".to_owned(),
            position: Vector3::zero(),
            xy_rotation: zero,
            yz_rotation: zero,
            xz_rotation: zero,
            width: Single { bits: TEN },
            height: Single { bits: TEN },
            checker_count_x: 10,
            checker_count_z: 10,
            color: Color { r: one, g: zero, b: zero },
            checker_darkness: half,
            emissive_color: Color { r: zero, g: zero, b: zero },
            emission_intensity: zero,
            emissive_checker_darkness: half,
            front_portal: PortalConnection { other_index: None, flip: false },
            back_portal: PortalConnection { other_index: None, flip: false },
        };
        let mut planes: Vec<Plane> = Vec::new();
        planes.push(ground);
        Scene {
            camera: Camera {
                position: Vector3 { x: zero, y: Single { bits: EYE_HEIGHT }, z: zero },
                rotation: Rotor::identity(),
                speed: Single { bits: TWO },
                rotation_speed: Single { bits: QUARTER },
            },
            up_sky_color: Color { r: two_fifths, g: half, b: Single { bits: FOUR_FIFTHS } },
            up_sky_intensity: one,
            down_sky_color: Color { r: two_fifths, g: two_fifths, b: two_fifths },
            down_sky_intensity: one,
            sun_color: Color { r: one, g: one, b: one },
            sun_intensity: Single { bits: HUNDRED },
            sun_direction: Vector3 { x: two_fifths, y: one, z: Single { bits: ONE_FIFTH } },
            sun_size: to_radians(Single { bits: SIX }),
            planes,
        }
    }
}

/// The device records of the planes, the plane at `i` placed by the
/// transform at `i`. A plane without a transform is left out, and so are
/// those behind it.
pub open spec fn records_of(planes: Seq<Plane>, transforms: Seq<Transform>) -> Seq<GpuPlane> {
    Seq::new(
        if planes.len() <= transforms.len() {
            planes.len()
        } else {
            transforms.len()
        },
        |i: int| planes[i].record(transforms[i]),
    )
}

/// Packs the planes for the device, the plane at `i` placed by the transform
/// at `i`.
pub fn pack_planes(planes: &Vec<Plane>, transforms: &Vec<Transform>) -> (records: Vec<GpuPlane>)
    ensures
        records@ == records_of(planes@, transforms@),
{
    let count = if planes.len() <= transforms.len() {
        planes.len()
    } else {
        transforms.len()
    };
    let mut records: Vec<GpuPlane> = Vec::new();
    let mut i: usize = 0;
    while i < count
        invariant
            i <= count,
            count <= planes.len(),
            count <= transforms.len(),
            records@ == records_of(planes@, transforms@).subrange(0, i as int),
            records_of(planes@, transforms@).len() == count,
        decreases count - i,
    {
        records.push(planes[i].to_gpu(&transforms[i]));
        i += 1;
        assert(records@ =~= records_of(planes@, transforms@).subrange(0, i as int));
    }
    assert(records@ =~= records_of(planes@, transforms@));
    records
}

/// Every link of every plane is absent or names a plane of the list.
pub open spec fn links_valid(planes: Seq<Plane>) -> bool {
    forall|i: int|
        0 <= i < planes.len() ==> (#[trigger] planes[i]).links_valid_for(planes.len() as int)
}

/// Every plane has positive checker counts.
pub open spec fn counts_positive(planes: Seq<Plane>) -> bool {
    forall|i: int| 0 <= i < planes.len() ==> (#[trigger] planes[i]).counts_positive()
}

/// The place in the old list of the plane that stands at `i` once the plane
/// at `removed` has left.
pub open spec fn origin_of(i: int, removed: int) -> int {
    if i < removed {
        i
    } else {
        i + 1
    }
}

/// The list once the plane at `removed` has left it: the other planes in
/// their order, each with its links re-targeted.
pub open spec fn without(planes: Seq<Plane>, removed: int) -> Seq<Plane>
    recommends
        0 <= removed < planes.len(),
{
    Seq::new(
        (planes.len() - 1) as nat,
        |i: int| planes[origin_of(i, removed)].reindexed(removed),
    )
}

/// The list once the planes at `indices` have left it one by one, the last
/// of `indices` first. An index that names no plane when its turn comes is
/// passed over.
pub open spec fn without_all(planes: Seq<Plane>, indices: Seq<usize>) -> Seq<Plane>
    decreases indices.len(),
{
    if indices.len() == 0 {
        planes
    } else {
        let k = indices.last() as int;
        let rest = if k < planes.len() {
            without(planes, k)
        } else {
            planes
        };
        without_all(rest, indices.drop_last())
    }
}

/// `plane` with the link on one side set to `target`; the flip flag of that
/// side and the other side stay.
pub open spec fn with_target(plane: Plane, front: bool, target: Option<usize>) -> Plane {
    if front {
        Plane {
            front_portal: PortalConnection { other_index: target, flip: plane.front_portal.flip },
            ..plane
        }
    } else {
        Plane {
            back_portal: PortalConnection { other_index: target, flip: plane.back_portal.flip },
            ..plane
        }
    }
}

/// Removing a plane from a list whose links are whole leaves them whole.
pub proof fn lemma_removal_keeps_links_valid(planes: Seq<Plane>, removed: int)
    requires
        0 <= removed < planes.len(),
        links_valid(planes),
    ensures
        links_valid(without(planes, removed)),
{
    let after = without(planes, removed);
    assert forall|i: int| 0 <= i < after.len() implies (#[trigger] after[i]).links_valid_for(
        after.len() as int,
    ) by {
        let before = planes[origin_of(i, removed)];
        assert(before.links_valid_for(planes.len() as int));
    }
}

/// Removing a plane leaves the checker counts of the others positive.
pub proof fn lemma_removal_keeps_counts_positive(planes: Seq<Plane>, removed: int)
    requires
        0 <= removed < planes.len(),
        counts_positive(planes),
    ensures
        counts_positive(without(planes, removed)),
{
    let after = without(planes, removed);
    assert forall|i: int| 0 <= i < after.len() implies (#[trigger] after[i]).counts_positive() by {
        assert(planes[origin_of(i, removed)].counts_positive());
    }
}

/// After a removal every link still leads to the plane it led to before, and
/// a link that led to the removed plane is cut.
///
/// For the plane now at `i` and either of its sides: where the old link named
/// the removed plane, the new link is absent; where it named another plane of
/// the list, the new link names the place where that same plane now stands;
/// where there was none, there is none.
pub proof fn lemma_removal_follows_planes(
    planes: Seq<Plane>,
    removed: int,
    i: int,
    front: bool,
)
    requires
        0 <= removed < planes.len(),
        0 <= i < planes.len() - 1,
    ensures
        ({
            let before = planes[origin_of(i, removed)].side(front);
            let after = without(planes, removed)[i].side(front);
            &&& after.flip == before.flip
            &&& before.other_index is None ==> after.other_index is None
            &&& before.other_index matches Some(j) ==> (j == removed ==> after.other_index is None)
            &&& before.other_index matches Some(j) ==> (j != removed ==> (after.other_index matches Some(m)
                && origin_of(m as int, removed) == j))
        }),
{
}

/// Appends `plane` to the list, with both its links cut. Returns its
/// index.
pub fn add_plane(planes: &mut Vec<Plane>, plane: Plane) -> (index: usize)
    ensures
        index == old(planes).len(),
        final(planes)@ == old(planes)@.push(with_target(with_target(plane, true, None), false, None)),
        links_valid(old(planes)@) ==> links_valid(final(planes)@),
        counts_positive(old(planes)@) && plane.counts_positive() ==> counts_positive(
            final(planes)@,
        ),
{
    let index = planes.len();
    let mut plane = plane;
    plane.front_portal.other_index = None;
    plane.back_portal.other_index = None;
    planes.push(plane);
    proof {
        if links_valid(old(planes)@) {
            assert forall|i: int| 0 <= i < planes@.len() implies (#[trigger] planes@[i]).links_valid_for(
                planes@.len() as int,
            ) by {
                if i < index {
                    assert(old(planes)@[i].links_valid_for(index as int));
                }
            }
        }
        if counts_positive(old(planes)@) && plane.counts_positive() {
            assert forall|i: int| 0 <= i < planes@.len() implies (#[trigger] planes@[i]).counts_positive() by {
                if i < index {
                    assert(old(planes)@[i].counts_positive());
                }
            }
        }
    }
    index
}

/// Sets the link on one side of the plane at `index` to `target`.
///
/// Nothing changes, and `false` comes back, where `index` or `target` names
/// no plane of the list.
pub fn connect(
    planes: &mut Vec<Plane>,
    index: usize,
    front: bool,
    target: Option<usize>,
) -> (done: bool)
    ensures
        done == (index < old(planes).len() && (target matches Some(k) ==> k < old(planes).len())),
        !done ==> final(planes)@ == old(planes)@,
        done ==> final(planes)@ == old(planes)@.update(
            index as int,
            with_target(old(planes)@[index as int], front, target),
        ),
        links_valid(old(planes)@) ==> links_valid(final(planes)@),
        counts_positive(old(planes)@) ==> counts_positive(final(planes)@),
{
    let count = planes.len();
    if index >= count {
        return false;
    }
    match target {
        Some(k) => {
            if k >= count {
                return false;
            }
        },
        None => {},
    }
    if front {
        planes[index].front_portal.other_index = target;
    } else {
        planes[index].back_portal.other_index = target;
    }
    proof {
        assert(planes@ =~= old(planes)@.update(
            index as int,
            with_target(old(planes)@[index as int], front, target),
        ));
        if links_valid(old(planes)@) {
            assert forall|i: int| 0 <= i < planes@.len() implies (#[trigger] planes@[i]).links_valid_for(
                planes@.len() as int,
            ) by {
                assert(old(planes)@[i].links_valid_for(count as int));
            }
        }
        if counts_positive(old(planes)@) {
            assert forall|i: int| 0 <= i < planes@.len() implies (#[trigger] planes@[i]).counts_positive() by {
                assert(old(planes)@[i].counts_positive());
            }
        }
    }
    true
}

/// Removes the plane at `index` and re-targets the links of the others.
///
/// Returns the removed plane, or `None`, with the list unchanged, where
/// `index` names no plane.
pub fn remove_plane(planes: &mut Vec<Plane>, index: usize) -> (removed: Option<Plane>)
    ensures
        index >= old(planes).len() ==> removed is None && final(planes)@ == old(planes)@,
        index < old(planes).len() ==> removed == Some(old(planes)@[index as int])
            && final(planes)@ == without(old(planes)@, index as int),
        links_valid(old(planes)@) ==> links_valid(final(planes)@),
        counts_positive(old(planes)@) ==> counts_positive(final(planes)@),
{
    if index >= planes.len() {
        return None;
    }
    let removed = planes.remove(index);
    let count = planes.len();
    let ghost shifted = planes@;
    proof {
        old(planes)@.remove_ensures(index as int);
    }
    let mut i: usize = 0;
    while i < count
        invariant
            i <= count,
            count == planes.len(),
            shifted.len() == count,
            forall|j: int| 0 <= j < i ==> planes@[j] == (#[trigger] shifted[j]).reindexed(index as int),
            forall|j: int| i <= j < count ==> planes@[j] == #[trigger] shifted[j],
        decreases count - i,
    {
        let front = planes[i].front_portal.after_removal(index);
        let back = planes[i].back_portal.after_removal(index);
        planes[i].front_portal = front;
        planes[i].back_portal = back;
        i += 1;
    }
    proof {
        let after = without(old(planes)@, index as int);
        assert forall|j: int| 0 <= j < count implies planes@[j] == after[j] by {
            assert(planes@[j] == shifted[j].reindexed(index as int));
            assert(shifted[j] == old(planes)@[origin_of(j, index as int)]);
        }
        assert(planes@ =~= after);
        if links_valid(old(planes)@) {
            lemma_removal_keeps_links_valid(old(planes)@, index as int);
        }
        if counts_positive(old(planes)@) {
            lemma_removal_keeps_counts_positive(old(planes)@, index as int);
        }
    }
    Some(removed)
}

/// Removing planes one by one from a list whose links are whole leaves them
/// whole.
pub proof fn lemma_removals_keep_links_valid(planes: Seq<Plane>, indices: Seq<usize>)
    requires
        links_valid(planes),
    ensures
        links_valid(without_all(planes, indices)),
    decreases indices.len(),
{
    if indices.len() > 0 {
        let k = indices.last() as int;
        if k < planes.len() {
            lemma_removal_keeps_links_valid(planes, k);
            lemma_removals_keep_links_valid(without(planes, k), indices.drop_last());
        } else {
            lemma_removals_keep_links_valid(planes, indices.drop_last());
        }
    }
}

/// Removing planes one by one leaves the checker counts of the others
/// positive.
pub proof fn lemma_removals_keep_counts_positive(planes: Seq<Plane>, indices: Seq<usize>)
    requires
        counts_positive(planes),
    ensures
        counts_positive(without_all(planes, indices)),
    decreases indices.len(),
{
    if indices.len() > 0 {
        let k = indices.last() as int;
        if k < planes.len() {
            lemma_removal_keeps_counts_positive(planes, k);
            lemma_removals_keep_counts_positive(without(planes, k), indices.drop_last());
        } else {
            lemma_removals_keep_counts_positive(planes, indices.drop_last());
        }
    }
}

/// `indices` rises strictly and names planes of a list of `count`.
pub open spec fn ascending_within(indices: Seq<usize>, count: int) -> bool {
    &&& forall|a: int, b: int| 0 <= a < b < indices.len() ==> indices[a] < indices[b]
    &&& forall|a: int| 0 <= a < indices.len() ==> indices[a] < count
}

/// How many of `indices` lie before `i`.
pub open spec fn removed_before(indices: Seq<usize>, i: int) -> nat
    decreases indices.len(),
{
    if indices.len() == 0 {
        0
    } else {
        removed_before(indices.drop_last(), i) + if indices.last() < i {
            1nat
        } else {
            0nat
        }
    }
}

/// A link once the planes at `indices` have all left: cut where it led to
/// one of them, else moved down by the number of them before its target.
pub open spec fn relinked(link: PortalConnection, indices: Seq<usize>) -> PortalConnection {
    match link.other_index {
        None => link,
        Some(j) => if indices.contains(j) {
            PortalConnection { other_index: None, flip: link.flip }
        } else {
            PortalConnection {
                other_index: Some((j - removed_before(indices, j as int)) as usize),
                flip: link.flip,
            }
        },
    }
}

/// A plane once the planes at `indices` have all left, itself not among them.
pub open spec fn relinked_plane(plane: Plane, indices: Seq<usize>) -> Plane {
    Plane {
        front_portal: relinked(plane.front_portal, indices),
        back_portal: relinked(plane.back_portal, indices),
        ..plane
    }
}

/// Where all of `indices` lie before `i`, all of them are counted.
proof fn lemma_removed_before_bounds(indices: Seq<usize>, i: int)
    ensures
        removed_before(indices, i) <= indices.len(),
        (forall|a: int| 0 <= a < indices.len() ==> indices[a] < i) ==> removed_before(indices, i)
            == indices.len(),
    decreases indices.len(),
{
    if indices.len() > 0 {
        lemma_removed_before_bounds(indices.drop_last(), i);
    }
}

/// Removing planes at rising indices, the last first, removes exactly the
/// planes that were chosen and keeps every other link on its plane.
///
/// The list loses one plane for each index. A plane that was at `i` and was
/// not chosen stands at `i` less the number of chosen planes before it, with
/// all else as it was, and with each link cut where
/// it led to a chosen plane and else moved to where its target now stands.
pub proof fn lemma_removals_keep_the_rest(planes: Seq<Plane>, indices: Seq<usize>, i: usize)
    requires
        ascending_within(indices, planes.len() as int),
        i < planes.len(),
        !indices.contains(i),
    ensures
        without_all(planes, indices).len() == planes.len() - indices.len(),
        0 <= i - removed_before(indices, i as int) < planes.len() - indices.len(),
        without_all(planes, indices)[i - removed_before(indices, i as int)] == relinked_plane(
            planes[i as int],
            indices,
        ),
    decreases indices.len(),
{
    if indices.len() > 0 {
        let k = indices.last();
        let rest = indices.drop_last();
        let shorter = without(planes, k as int);
        assert(indices[indices.len() - 1] == k);
        let at: usize = if i < k {
            i
        } else {
            (i - 1) as usize
        };
        assert forall|a: int| 0 <= a < rest.len() implies rest[a] < k by {
            assert(indices[a] < indices[indices.len() - 1]);
        }
        assert(ascending_within(rest, shorter.len() as int));
        assert(!rest.contains(at)) by {
            if rest.contains(at) {
                let a = choose|a: int| 0 <= a < rest.len() && rest[a] == at;
                assert(indices[a] == at);
            }
        }
        lemma_removals_keep_the_rest(shorter, rest, at);
        if k < i {
            lemma_removed_before_bounds(rest, at as int);
            lemma_removed_before_bounds(rest, i as int);
        }
        assert(shorter[at as int] == planes[i as int].reindexed(k as int));
        lemma_relinked_in_steps(planes[i as int].front_portal, indices);
        lemma_relinked_in_steps(planes[i as int].back_portal, indices);
    }
}

/// Re-targeting a link for the last of rising `indices` and then for the
/// others amounts to re-targeting it for all of them.
proof fn lemma_relinked_in_steps(link: PortalConnection, indices: Seq<usize>)
    requires
        indices.len() > 0,
        forall|a: int, b: int| 0 <= a < b < indices.len() ==> indices[a] < indices[b],
    ensures
        relinked(link.reindexed(indices.last() as int), indices.drop_last()) == relinked(
            link,
            indices,
        ),
{
    let k = indices.last();
    let rest = indices.drop_last();
    assert(indices[indices.len() - 1] == k);
    match link.other_index {
        None => {},
        Some(j) => {
            if j == k {
                assert(indices.contains(j));
            } else {
                let moved: usize = if j > k {
                    (j - 1) as usize
                } else {
                    j
                };
                assert(rest.contains(moved) <==> indices.contains(j)) by {
                    if rest.contains(moved) {
                        let a = choose|a: int| 0 <= a < rest.len() && rest[a] == moved;
                        assert(indices[a] < indices[indices.len() - 1]);
                        assert(indices[a] == j);
                    }
                    if indices.contains(j) {
                        let a = choose|a: int| 0 <= a < indices.len() && indices[a] == j;
                        assert(a < indices.len() - 1);
                        assert(rest[a] == j);
                        assert(indices[a] < indices[indices.len() - 1]);
                    }
                }
                if !indices.contains(j) {
                    if j > k {
                        assert forall|a: int| 0 <= a < rest.len() implies rest[a] < moved
                            && rest[a] < j by {
                            assert(indices[a] < indices[indices.len() - 1]);
                        }
                        lemma_removed_before_bounds(rest, moved as int);
                        lemma_removed_before_bounds(rest, j as int);
                    }
                }
            }
        },
    }
}

/// Removes the planes at `indices`, the last of `indices` first, so that
/// with ascending indices each one still names the plane it was chosen for.
pub fn remove_planes(planes: &mut Vec<Plane>, indices: &Vec<usize>)
    ensures
        final(planes)@ == without_all(old(planes)@, indices@),
        links_valid(old(planes)@) ==> links_valid(final(planes)@),
        counts_positive(old(planes)@) ==> counts_positive(final(planes)@),
{
    let mut left: usize = indices.len();
    proof {
        assert(indices@.subrange(0, left as int) =~= indices@);
    }
    while left > 0
        invariant
            left <= indices.len(),
            without_all(planes@, indices@.subrange(0, left as int)) == without_all(
                old(planes)@,
                indices@,
            ),
        decreases left,
    {
        let ghost pending = indices@.subrange(0, left as int);
        left -= 1;
        let k = indices[left];
        proof {
            assert(pending.last() == k);
            assert(pending.drop_last() =~= indices@.subrange(0, left as int));
        }
        let _ = remove_plane(planes, k);
    }
    proof {
        assert(indices@.subrange(0, 0).len() == 0);
        if links_valid(old(planes)@) {
            lemma_removals_keep_links_valid(old(planes)@, indices@);
        }
        if counts_positive(old(planes)@) {
            lemma_removals_keep_counts_positive(old(planes)@, indices@);
        }
    }
}

} // verus!
