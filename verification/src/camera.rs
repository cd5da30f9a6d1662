//! The camera, and the first-person controls that move it: from the keys
//! that are down to where the camera stands and looks after the frame.
//!
//! The axes are right-handed with X forward, Y up and Z to the right.

use vstd::prelude::*;
use crate::limits::{drifted, has_drifted};
use crate::rotor::Rotor;
use crate::single::Single;
use crate::transform::Transform;
use crate::vector3::{Vector3, ONE};

verus! {

/// The pattern of a full turn: the single-precision number nearest to two
/// pi.
pub const TAU: u32 = 0x40c9_0fdb;

/// Where the camera stands, how it is turned, and how fast the controls move
/// and turn it: units per second, and turns per second.
#[derive(Clone, Copy, Debug, PartialEq, Eq, Structural)]
pub struct Camera {
    pub position: Vector3,
    pub rotation: Rotor,
    pub speed: Single,
    pub rotation_speed: Single,
}

/// The keys that are down in one frame.
#[derive(Clone, Copy, Debug, PartialEq, Eq, Structural)]
pub struct KeyState {
    pub forward: bool,
    pub backward: bool,
    pub up: bool,
    pub down: bool,
    pub left: bool,
    pub right: bool,
    pub look_up: bool,
    pub look_down: bool,
    pub look_left: bool,
    pub look_right: bool,
    pub shift: bool,
}

/// The plane in which the left and right look keys turn the camera.
#[derive(Clone, Copy, Debug, PartialEq, Eq, Structural)]
pub enum TurnAxis {
    /// About the camera's up axis.
    Yaw,
    /// About the camera's forward axis.
    Roll,
}

/// What the keys ask of the camera, one signed unit per axis.
#[derive(Clone, Copy, Debug, PartialEq, Eq, Structural)]
pub struct Steering {
    /// Movement along the camera's forward axis.
    pub move_x: i8,
    /// Movement along the camera's up axis.
    pub move_y: i8,
    /// Movement along the camera's right axis.
    pub move_z: i8,
    /// The factor on the linear speed: two with shift down, else one.
    pub boost: u8,
    /// Pitch, positive upwards.
    pub pitch: i8,
    /// Turn to the right about `turn_axis`.
    pub turn: i8,
    pub turn_axis: TurnAxis,
    /// A movement or look key is down.
    pub active: bool,
}

/// One unit towards `positive`, one back for `negative`.
pub open spec fn axis_of(positive: bool, negative: bool) -> int {
    (if positive {
        1int
    } else {
        0int
    }) - (if negative {
        1int
    } else {
        0int
    })
}

fn axis(positive: bool, negative: bool) -> (r: i8)
    ensures
        r == axis_of(positive, negative),
{
    if positive == negative {
        0
    } else if positive {
        1
    } else {
        -1
    }
}

impl KeyState {
    /// No key is down.
    pub open spec fn idle(self) -> bool {
        !self.forward && !self.backward && !self.up && !self.down && !self.left && !self.right
            && !self.look_up && !self.look_down && !self.look_left && !self.look_right
    }

    /// What these keys ask of the camera.
    pub open spec fn steering_of(self) -> Steering {
        Steering {
            move_x: axis_of(self.forward, self.backward) as i8,
            move_y: axis_of(self.up, self.down) as i8,
            move_z: axis_of(self.right, self.left) as i8,
            boost: if self.shift {
                2
            } else {
                1
            },
            pitch: axis_of(self.look_up, self.look_down) as i8,
            turn: axis_of(self.look_right, self.look_left) as i8,
            turn_axis: if self.shift {
                TurnAxis::Roll
            } else {
                TurnAxis::Yaw
            },
            active: !self.idle(),
        }
    }

    /// Decodes the keys of one frame.
    ///
    /// While the interface wants the keyboard for itself (`suspended`) the
    /// camera is left alone and `None` comes back. Otherwise: forward and
    /// backward move along X, up and down along Y, right and left along Z;
    /// shift doubles the speed and turns the left and right look keys from
    /// yaw to roll.
    pub fn steering(&self, suspended: bool) -> (r: Option<Steering>)
        ensures
            suspended ==> r is None,
            !suspended ==> r == Some(self.steering_of()),
    {
        if suspended {
            return None;
        }
        let active = self.forward || self.backward || self.up || self.down || self.left
            || self.right || self.look_up || self.look_down || self.look_left || self.look_right;
        Some(
            Steering {
                move_x: axis(self.forward, self.backward),
                move_y: axis(self.up, self.down),
                move_z: axis(self.right, self.left),
                boost: if self.shift {
                    2
                } else {
                    1
                },
                pitch: axis(self.look_up, self.look_down),
                turn: axis(self.look_right, self.look_left),
                turn_axis: if self.shift {
                    TurnAxis::Roll
                } else {
                    TurnAxis::Yaw
                },
                active,
            },
        )
    }
}

impl Steering {
    /// The direction of movement in the camera's own frame: one unit along
    /// each axis that is asked for, scaled to unit length.
    pub open spec fn movement(self) -> Vector3 {
        (Vector3 {
            x: Single::of_unit(self.move_x),
            y: Single::of_unit(self.move_y),
            z: Single::of_unit(self.move_z),
        }).direction()
    }

    /// The rotor of the turn, in the plane of the turn axis, from the sine
    /// and cosine of half its angle.
    pub open spec fn turn_rotor(self, half_sine: Single, half_cosine: Single) -> Rotor {
        let zero = Single { bits: 0 };
        match self.turn_axis {
            TurnAxis::Roll => Rotor { s: half_cosine, e12: zero, e13: zero, e23: half_sine },
            TurnAxis::Yaw => Rotor { s: half_cosine, e12: zero, e13: half_sine, e23: zero },
        }
    }

    /// The camera counts as changed in this frame: a key was down, or its
    /// orientation had drifted and was brought back to unit length.
    pub fn changed(&self, renormalised: bool) -> (r: bool)
        ensures
            r == (self.active || renormalised),
    {
        self.active || renormalised
    }
}

impl Camera {
    /// The motion that carries the camera's own frame to the world: the
    /// shift to its position, then its rotation.
    pub open spec fn transform_of(self) -> Transform {
        Transform::of_rotor(self.rotation).composed(Transform::shift(self.position))
    }

    /// An angle of the controls in one frame: `units` times the turning
    /// speed, times a full turn, times the seconds that passed.
    pub open spec fn angle_of(self, units: i8, seconds: Single) -> Single {
        Single::of_unit(units).product(self.rotation_speed).product(Single { bits: TAU }).product(
            seconds,
        )
    }

    /// Half the pitch angle and half the turn angle of one frame.
    pub open spec fn half_angles_of(self, steering: Steering, seconds: Single) -> (Single, Single) {
        (
            Rotor::half_of(self.angle_of(steering.pitch, seconds)),
            Rotor::half_of(self.angle_of(steering.turn, seconds)),
        )
    }

    /// The position after one frame: the direction of movement, turned as
    /// the camera is, times the speed, the boost and the seconds that
    /// passed, added to the position.
    pub open spec fn advanced(self, steering: Steering, seconds: Single) -> Vector3 {
        self.position.sum(
            self.rotation.turned(steering.movement()).product(Vector3::splat(self.speed)).product(
                Vector3::splat(Single::of_count(steering.boost as u32)),
            ).product(Vector3::splat(seconds)),
        )
    }

    /// The rotation after the pitch and the turn of one frame, before it is
    /// looked at for drift.
    pub open spec fn turned(
        self,
        steering: Steering,
        pitch: (Single, Single),
        turn: (Single, Single),
    ) -> Rotor {
        let zero = Single { bits: 0 };
        let pitched = (Rotor { s: pitch.1, e12: pitch.0, e13: zero, e23: zero }).composed(
            self.rotation,
        );
        steering.turn_rotor(turn.0, turn.1).composed(pitched)
    }

    /// How much the length of a rotation differs from one.
    pub open spec fn drift_of(rotation: Rotor) -> Single {
        rotation.length().difference(Single { bits: ONE })
    }

    /// The camera after one frame of the controls.
    pub open spec fn updated(
        self,
        steering: Steering,
        seconds: Single,
        pitch: (Single, Single),
        turn: (Single, Single),
    ) -> Camera {
        let rotation = self.turned(steering, pitch, turn);
        Camera {
            position: self.advanced(steering, seconds),
            rotation: if drifted(Camera::drift_of(rotation)) {
                rotation.unit()
            } else {
                rotation
            },
            speed: self.speed,
            rotation_speed: self.rotation_speed,
        }
    }

    /// The hop from the plane placed by `source` to the plane placed by
    /// `target`: the reverse of `source` after `target`.
    pub open spec fn hop_of(source: Transform, target: Transform) -> Transform {
        source.reversed().composed(target)
    }

    /// The camera after a hop from the plane placed by `source` to the plane
    /// placed by `target`: its position moved by the hop, its rotation
    /// followed by the rotor of the hop.
    pub open spec fn teleported(self, source: Transform, target: Transform) -> Camera {
        let hop = Camera::hop_of(source, target);
        Camera {
            position: hop.moved(self.position),
            rotation: self.rotation.composed(hop.rotor_of()),
            speed: self.speed,
            rotation_speed: self.rotation_speed,
        }
    }

    /// The motion that carries the camera's own frame to the world.
    pub fn transform(&self) -> (r: Transform)
        ensures
            r == self.transform_of(),
    {
        Transform::from_rotor(self.rotation).after(&Transform::translation(&self.position))
    }

    /// Half the pitch angle and half the turn angle that the controls ask
    /// for in a frame of `seconds`. Their sines and cosines are what
    /// `update` takes.
    pub fn half_angles(&self, steering: &Steering, seconds: Single) -> (r: (Single, Single))
        ensures
            r == self.half_angles_of(*steering, seconds),
    {
        let tau = Single { bits: TAU };
        let pitch = Single::from_unit(steering.pitch).times(&self.rotation_speed).times(
            &tau,
        ).times(&seconds);
        let turn = Single::from_unit(steering.turn).times(&self.rotation_speed).times(&tau).times(
            &seconds,
        );
        (Rotor::half(pitch), Rotor::half(turn))
    }

    /// Moves and turns the camera as the controls ask for in a frame of
    /// `seconds`.
    ///
    /// `pitch` and `turn` hold the sine and the cosine of the two half
    /// angles. The camera moves along the direction of movement, turned as
    /// the camera was. It then pitches in its XY plane and turns in its YZ
    /// plane for a roll or in its XZ plane for a yaw. A rotation whose
    /// length has drifted from one is scaled back to unit length. Returns
    /// whether the camera counts as changed: a key was down, or the rotation
    /// was scaled back.
    pub fn update(
        &mut self,
        steering: &Steering,
        seconds: Single,
        pitch: (Single, Single),
        turn: (Single, Single),
    ) -> (changed: bool)
        ensures
            *final(self) == old(self).updated(*steering, seconds, pitch, turn),
            changed == (steering.active || drifted(
                Camera::drift_of(old(self).turned(*steering, pitch, turn)),
            )),
    {
        let movement = (Vector3 {
            x: Single::from_unit(steering.move_x),
            y: Single::from_unit(steering.move_y),
            z: Single::from_unit(steering.move_z),
        }).normalised();
        let boost = Single::from_count(steering.boost as u32);
        let step = self.rotation.rotate(&movement).scaled(self.speed).scaled(boost).scaled(seconds);
        self.position = self.position.plus(&step);

        let pitched = Rotor::rotation_xy(pitch.0, pitch.1).after(&self.rotation);
        let turn_rotor = match steering.turn_axis {
            TurnAxis::Roll => Rotor::rotation_yz(turn.0, turn.1),
            TurnAxis::Yaw => Rotor::rotation_xz(turn.0, turn.1),
        };
        let rotation = turn_rotor.after(&pitched);

        let one = Single { bits: ONE };
        let renormalised = has_drifted(rotation.magnitude().minus(&one));
        self.rotation = if renormalised {
            rotation.normalised()
        } else {
            rotation
        };
        steering.changed(renormalised)
    }

    /// Carries the camera through a portal, from the plane placed by
    /// `source` to the plane placed by `target`.
    pub fn teleport(&mut self, source: &Transform, target: &Transform)
        ensures
            *final(self) == old(self).teleported(*source, *target),
    {
        let hop = source.reverse().after(target);
        self.position = hop.transform_point(&self.position);
        self.rotation = self.rotation.after(&hop.rotor_part());
    }
}

} // verus!
