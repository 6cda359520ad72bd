//! The server-side entity composition: a base entity with transform and
//! identity, a moving object wrapping it, and the player ship with its two
//! wheels and an independently aimed gun.
//!
//! Positions and sizes are in milliunits, angles in milliturns, and wheel
//! settings in thousandths of full throttle (0 stop, 500 neutral, 1000
//! full ahead).

use crate::types::Rgb;
use vstd::prelude::*;

verus! {

/// A simulated actor's identity and transform.
#[allow(non_camel_case_types)]
pub struct Entity {
    pub world_position: [i64; 2],
    pub world_angle: i64,
    pub size: i64,
    pub lock: bool,
    pub name: String,
    pub color: Rgb,
}

impl Entity {
    /// Re-initializes position, angle, and size in place.
    pub fn new(&mut self, world_position: [i64; 2], world_angle: i64, size: i64)
        ensures
            final(self).world_position == world_position,
            final(self).world_angle == world_angle,
            final(self).size == size,
            final(self).lock == old(self).lock,
            final(self).name == old(self).name,
            final(self).color == old(self).color,
    {
        self.size = size;
        self.world_angle = world_angle;
        self.world_position = world_position;
    }

    /// Moves the entity to the given world position.
    pub fn set_world_position(&mut self, x: i64, y: i64)
        ensures
            final(self).world_position == [x, y],
            final(self).world_angle == old(self).world_angle,
            final(self).size == old(self).size,
            final(self).lock == old(self).lock,
            final(self).name == old(self).name,
            final(self).color == old(self).color,
    {
        self.world_position = [x, y];
    }

    /// Reads the entity's world position.
    pub fn get_world_position(&self) -> (r: [i64; 2])
        ensures
            r == self.world_position,
    {
        self.world_position
    }

    /// Sets the entity's facing angle.
    pub fn set_angle(&mut self, angle: i64)
        ensures
            *final(self) == (Entity { world_angle: angle, ..*old(self) }),
    {
        self.world_angle = angle;
    }

    /// Reads the entity's facing angle.
    pub fn get_angle(&self) -> (r: &i64)
        ensures
            *r == self.world_angle,
    {
        &self.world_angle
    }

    /// Sets the entity's size.
    pub fn set_size(&mut self, size: i64)
        ensures
            *final(self) == (Entity { size, ..*old(self) }),
    {
        self.size = size;
    }

    /// Reads the entity's name.
    pub fn get_name(&self) -> (r: &String)
        ensures
            r == self.name,
    {
        &self.name
    }

    /// Sets the entity's display color.
    pub fn set_color(&mut self, color: Rgb)
        ensures
            *final(self) == (Entity { color, ..*old(self) }),
    {
        self.color = color;
    }

    /// Reads the entity's display color.
    pub fn get_color(&self) -> (r: &Rgb)
        ensures
            *r == self.color,
    {
        &self.color
    }
}

/// An entity that can move through the world.
pub struct MovingObject {
    pub entity: Entity,
}

impl MovingObject {
    /// Re-initializes the wrapped entity's transform in place.
    pub fn new(&mut self, world_position: [i64; 2], world_angle: i64, size: i64)
        ensures
            final(self).entity.world_position == world_position,
            final(self).entity.world_angle == world_angle,
            final(self).entity.size == size,
            final(self).entity.name == old(self).entity.name,
            final(self).entity.color == old(self).entity.color,
    {
        self.entity.new(world_position, world_angle, size);
    }
}

/// The player's vehicle: a moving body driven by two wheels, with a gun
/// aimed independently of the hull.
#[allow(non_camel_case_types)]
pub struct ship {
    pub body: MovingObject,
    pub right_wheel: i64,
    pub left_wheel: i64,
    pub gun_orientation: [i64; 2],
}

impl ship {
    /// Re-initializes the hull's transform in place.
    pub fn new(&mut self, world_position: [i64; 2], world_angle: i64, size: i64)
        ensures
            final(self).body.entity.world_position == world_position,
            final(self).body.entity.world_angle == world_angle,
            final(self).body.entity.size == size,
    {
        self.body.new(world_position, world_angle, size);
    }

    /// Sets the right wheel's throttle.
    pub fn set_right_wheel(&mut self, right_wheel: i64)
        ensures
            *final(self) == (ship { right_wheel, ..*old(self) }),
    {
        self.right_wheel = right_wheel;
    }

    /// Sets the left wheel's throttle.
    pub fn set_left_wheel(&mut self, left_wheel: i64)
        ensures
            *final(self) == (ship { left_wheel, ..*old(self) }),
    {
        self.left_wheel = left_wheel;
    }

    /// Reads the right wheel's throttle.
    pub fn get_right_wheel(&self) -> (r: &i64)
        ensures
            *r == self.right_wheel,
    {
        &self.right_wheel
    }

    /// Reads the left wheel's throttle.
    pub fn get_left_wheel(&self) -> (r: &i64)
        ensures
            *r == self.left_wheel,
    {
        &self.left_wheel
    }

    /// Borrows the hull.
    pub fn get_body(&self) -> (r: &MovingObject)
        ensures
            r == self.body,
    {
        &self.body
    }

    /// Replaces the hull.
    pub fn set_body(&mut self, body: MovingObject)
        ensures
            final(self).body == body,
            final(self).right_wheel == old(self).right_wheel,
            final(self).left_wheel == old(self).left_wheel,
            final(self).gun_orientation == old(self).gun_orientation,
    {
        self.body = body;
    }

    /// Aims the gun.
    pub fn set_gun_orientation(&mut self, gun_orientation: [i64; 2])
        ensures
            *final(self) == (ship { gun_orientation, ..*old(self) }),
    {
        self.gun_orientation = gun_orientation;
    }

    /// Reads the gun's aim.
    pub fn get_gun_orientation(&self) -> (r: &[i64; 2])
        ensures
            *r == self.gun_orientation,
    {
        &self.gun_orientation
    }

    /// Translates the pressed arrow keys into wheel throttles: both ahead
    /// to drive forward, both stopped to reverse, and one wheel ahead with
    /// the other neutral to turn; no key leaves both wheels neutral.
    pub fn update_wheels(&mut self, up: bool, down: bool, right: bool, left: bool)
        ensures
            final(self).body == old(self).body,
            final(self).gun_orientation == old(self).gun_orientation,
            up ==> final(self).right_wheel == 1000 && final(self).left_wheel == 1000,
            !up && down ==> final(self).right_wheel == 0 && final(self).left_wheel == 0,
            !up && !down && right ==> final(self).left_wheel == 1000 && final(self).right_wheel
                == 500,
            !up && !down && !right && left ==> final(self).right_wheel == 1000 && final(self).left_wheel == 500,
            !up && !down && !right && !left ==> final(self).right_wheel == 500 && final(self).left_wheel == 500,
    {
        self.right_wheel = 500;
        self.left_wheel = 500;
        if up {
            self.right_wheel = 1000;
            self.left_wheel = 1000;
        } else if down {
            self.right_wheel = 0;
            self.left_wheel = 0;
        } else if right {
            self.left_wheel = 1000;
            self.right_wheel = 500;
        } else if left {
            self.right_wheel = 1000;
            self.left_wheel = 500;
        }
    }
}

} // verus!
