//! Depth layers: every kind of object lives on its own z plane.

use vstd::prelude::*;

use crate::geom::Vec2Fix;
use crate::geom::Vec3Fix;

verus! {

/// The z plane a kind of object is drawn and hit-tested on.
pub enum Layers {
    Ships,
    Planets,
    BoxSelect,
    Text,
}

/// The z coordinate of a layer, in milliunits.
pub open spec fn spec_get_z(obj_type: Layers) -> i64 {
    match obj_type {
        Layers::Ships => 0,
        Layers::Planets => 0,
        Layers::BoxSelect => 3000,
        Layers::Text => 7500,
    }
}

/// The z coordinate of a layer, in milliunits.
pub fn get_z(obj_type: Layers) -> (z: i64)
    ensures
        z == spec_get_z(obj_type),
{
    match obj_type {
        Layers::Ships => 0,
        Layers::Planets => 0,
        Layers::BoxSelect => 3000,
        Layers::Text => 7500,
    }
}

/// A point of the plane, lifted onto a layer's z plane.
pub open spec fn at_layer(xy: Vec2Fix, obj_type: Layers) -> Vec3Fix {
    Vec3Fix { x: xy.x, y: xy.y, z: spec_get_z(obj_type) }
}

/// Lifts a point of the plane onto the given layer's z plane.
pub fn vec2_to_vec3(xy: Vec2Fix, obj_type: Layers) -> (v: Vec3Fix)
    ensures
        v == (Vec3Fix { x: xy.x, y: xy.y, z: spec_get_z(obj_type) }),
{
    let z = get_z(obj_type);
    Vec3Fix { x: xy.x, y: xy.y, z }
}

/// Moves a point onto the given layer's z plane, keeping x and y.
pub fn to_layer(vec: Vec3Fix, obj_type: Layers) -> (v: Vec3Fix)
    ensures
        v == (Vec3Fix { x: vec.x, y: vec.y, z: spec_get_z(obj_type) }),
{
    let z = get_z(obj_type);
    Vec3Fix { x: vec.x, y: vec.y, z }
}

} // verus!
