//! Selection: picking the nearest object under a click, and box-selecting
//! everything inside a dragged rectangle.

use vstd::prelude::*;

use crate::geom::Vec2Fix;
use crate::geom::Vec3Fix;
use crate::geom::dist_sq;
use crate::geom::distance_squared;
use crate::layers::Layers;
use crate::layers::at_layer;
use crate::layers::vec2_to_vec3;

verus! {

/// Marks an entity that can be selected.
#[derive(Clone, Copy, Debug)]
pub struct Selectable;

/// Marks an entity that is selected.
#[derive(Clone, Copy, Debug)]
pub struct Selected;

/// The state of a box-select drag: whether one is under way, and where the
/// mouse went down.
pub struct IsSelecting {
    pub is_selecting: bool,
    pub mouse_enter: Option<Vec2Fix>,
}

/// A request to select everything inside this rectangle.
#[derive(Clone, Copy, Debug, PartialEq, Eq, Structural)]
pub struct SelectMany {
    pub bottom_left: Vec2Fix,
    pub top_right: Vec2Fix,
}

/// A request to select this one entity.
#[derive(Clone, Copy, Debug, PartialEq, Eq, Structural)]
pub struct SelectNearest(pub u64);

/// A click picks the nearest object within this squared distance of the
/// cursor (ten square units, in squared milliunits).
pub const CLICK_RANGE_SQ: u128 = 10_000_000;

/// The running minimum of the click scan over a list of positioned entities:
/// the best squared distance seen so far (starting at the click range) and
/// the entity that holds it. On a tie the later entity wins, as the scan
/// overwrites.
pub open spec fn click_fold(es: Seq<(u64, Vec3Fix)>, target: Vec3Fix) -> (int, Option<u64>)
    decreases es.len(),
{
    if es.len() == 0 {
        (CLICK_RANGE_SQ as int, None)
    } else {
        let prev = click_fold(es.drop_last(), target);
        if dist_sq(target, es.last().1) <= prev.0 {
            (dist_sq(target, es.last().1), Some(es.last().0))
        } else {
            prev
        }
    }
}

/// Scans the selectable entities and returns the one nearest to the click,
/// if any lies within the click range; the click itself is taken on the
/// planet layer.
pub fn click_select(ms_pos: Vec2Fix, entities: &Vec<(u64, Vec3Fix)>) -> (r: Option<SelectNearest>)
    requires
        ms_pos.in_world(),
        forall|i: int| 0 <= i < entities@.len() ==> (#[trigger] entities@[i]).1.in_world(),
    ensures
        ({
            let target = at_layer(ms_pos, Layers::Planets);
            match click_fold(entities@, target).1 {
                Some(id) => r == Some(SelectNearest(id)),
                None => r is None,
            }
        }),
{
    let target = vec2_to_vec3(ms_pos, Layers::Planets);
    let n = entities.len();
    let mut i: usize = 0;
    let mut min_dist: u128 = CLICK_RANGE_SQ;
    let mut min_entity: Option<u64> = None;
    while i < n
        invariant
            i <= n == entities@.len(),
            target == at_layer(ms_pos, Layers::Planets),
            target.in_world(),
            forall|k: int| 0 <= k < n ==> (#[trigger] entities@[k]).1.in_world(),
            click_fold(entities@.subrange(0, i as int), target) == (min_dist as int, min_entity),
        decreases n - i,
    {
        proof {
            assert(entities@.subrange(0, i + 1).drop_last() =~= entities@.subrange(0, i as int));
        }
        let obj_dist = distance_squared(target, entities[i].1);
        if obj_dist <= min_dist {
            min_dist = obj_dist;
            min_entity = Some(entities[i].0);
        }
        i = i + 1;
    }
    proof {
        assert(entities@.subrange(0, n as int) =~= entities@);
    }
    match min_entity {
        Some(id) => Some(SelectNearest(id)),
        None => None,
    }
}

/// Makes the clicked entity the only selected one.
pub fn update_selected(selected: &mut Vec<u64>, nearest: SelectNearest)
    ensures
        final(selected)@ =~= seq![nearest.0],
{
    selected.clear();
    selected.push(nearest.0);
}

/// One frame of the box-select drag. Pressing the button starts a drag at
/// the cursor; releasing it ends the drag and, if a selection box was being
/// shown, asks for everything inside the rectangle spanned by the entry
/// point and the cursor (its corners put in order).
pub fn box_select(
    pressed: bool,
    released: bool,
    ms_pos: Vec2Fix,
    had_box: bool,
    is_selecting: &mut IsSelecting,
) -> (ev: Option<SelectMany>)
    ensures
        ({
            let entered = if pressed {
                Some(ms_pos)
            } else {
                old(is_selecting).mouse_enter
            };
            &&& if released {
                &&& final(is_selecting).is_selecting == false
                &&& final(is_selecting).mouse_enter is None
                &&& match entered {
                    Some(enter) => if had_box {
                        ev == Some(
                            SelectMany {
                                bottom_left: Vec2Fix {
                                    x: if enter.x < ms_pos.x { enter.x } else { ms_pos.x },
                                    y: if enter.y < ms_pos.y { enter.y } else { ms_pos.y },
                                },
                                top_right: Vec2Fix {
                                    x: if enter.x > ms_pos.x { enter.x } else { ms_pos.x },
                                    y: if enter.y > ms_pos.y { enter.y } else { ms_pos.y },
                                },
                            },
                        )
                    } else {
                        ev is None
                    },
                    None => ev is None,
                }
            } else {
                &&& final(is_selecting).is_selecting == (pressed || old(is_selecting).is_selecting)
                &&& final(is_selecting).mouse_enter == entered
                &&& ev is None
            }
        }),
{
    if pressed {
        is_selecting.is_selecting = true;
        is_selecting.mouse_enter = Some(ms_pos);
    }
    if released {
        let ev = if had_box {
            match is_selecting.mouse_enter {
                Some(enter) => {
                    let bottom_left = Vec2Fix {
                        x: if enter.x < ms_pos.x { enter.x } else { ms_pos.x },
                        y: if enter.y < ms_pos.y { enter.y } else { ms_pos.y },
                    };
                    let top_right = Vec2Fix {
                        x: if enter.x > ms_pos.x { enter.x } else { ms_pos.x },
                        y: if enter.y > ms_pos.y { enter.y } else { ms_pos.y },
                    };
                    Some(SelectMany { bottom_left, top_right })
                },
                None => None,
            }
        } else {
            None
        };
        is_selecting.is_selecting = false;
        is_selecting.mouse_enter = None;
        ev
    } else {
        None
    }
}

/// True when the entity's position falls inside the rectangle (on the plane).
pub open spec fn in_box(p: Vec3Fix, bl: Vec2Fix, tr: Vec2Fix) -> bool {
    bl.x <= p.x <= tr.x && bl.y <= p.y <= tr.y
}

/// The ids of the entities inside the rectangle, in their listed order.
pub open spec fn ids_in_box(es: Seq<(u64, Vec3Fix)>, bl: Vec2Fix, tr: Vec2Fix) -> Seq<u64>
    decreases es.len(),
{
    if es.len() == 0 {
        Seq::empty()
    } else {
        let pre = ids_in_box(es.drop_last(), bl, tr);
        if in_box(es.last().1, bl, tr) {
            pre.push(es.last().0)
        } else {
            pre
        }
    }
}

/// The squared distance between two points of the plane.
pub open spec fn dist2_sq(a: Vec2Fix, b: Vec2Fix) -> int {
    (a.x - b.x) * (a.x - b.x) + (a.y - b.y) * (a.y - b.y)
}

/// Answers a box-select request with the new selection. A degenerate box
/// (corners less than one unit apart) acts as a click: the nearest entity
/// within range of its bottom-left corner, if any. A real box selects every
/// entity inside it.
pub fn update_box(ev: &SelectMany, entities: &Vec<(u64, Vec3Fix)>) -> (sel: Vec<u64>)
    requires
        ev.bottom_left.in_world(),
        ev.top_right.in_world(),
        forall|i: int| 0 <= i < entities@.len() ==> (#[trigger] entities@[i]).1.in_world(),
    ensures
        dist2_sq(ev.bottom_left, ev.top_right) < 1_000_000 ==> {
            let target = at_layer(ev.bottom_left, Layers::Planets);
            match click_fold(entities@, target).1 {
                Some(id) => sel@ =~= seq![id],
                None => sel@ =~= Seq::<u64>::empty(),
            }
        },
        dist2_sq(ev.bottom_left, ev.top_right) >= 1_000_000 ==> sel@ == ids_in_box(
            entities@,
            ev.bottom_left,
            ev.top_right,
        ),
{
    let dx: i128 = ev.bottom_left.x as i128 - ev.top_right.x as i128;
    let dy: i128 = ev.bottom_left.y as i128 - ev.top_right.y as i128;
    proof {
        crate::geom::lemma_square_bound(dx as int, 0x2000_0000_0000_0000);
        crate::geom::lemma_square_bound(dy as int, 0x2000_0000_0000_0000);
    }
    let d2: i128 = dx * dx + dy * dy;
    if d2 < 1_000_000 {
        let mut sel: Vec<u64> = Vec::new();
        match click_select(ev.bottom_left, entities) {
            Some(SelectNearest(id)) => {
                sel.push(id);
            },
            None => {},
        }
        sel
    } else {
        let bl = ev.bottom_left;
        let tr = ev.top_right;
        let n = entities.len();
        let mut sel: Vec<u64> = Vec::new();
        let mut i: usize = 0;
        while i < n
            invariant
                i <= n == entities@.len(),
                sel@ == ids_in_box(entities@.subrange(0, i as int), bl, tr),
            decreases n - i,
        {
            proof {
                assert(entities@.subrange(0, i + 1).drop_last() =~= entities@.subrange(
                    0,
                    i as int,
                ));
            }
            let (id, p) = (entities[i].0, entities[i].1);
            if p.x >= bl.x && p.x <= tr.x && p.y >= bl.y && p.y <= tr.y {
                sel.push(id);
            }
            i = i + 1;
        }
        proof {
            assert(entities@.subrange(0, n as int) =~= entities@);
        }
        sel
    }
}

/// The four corners of the selection rectangle a drag draws, relative to the
/// drag's origin: the quad spans from the origin to the cursor, whichever
/// quadrant the cursor is in.
pub fn box_select_corners(screen_pos_origin: Vec2Fix, screen_pos_target: Vec2Fix) -> (corners: (
    Vec2Fix,
    Vec2Fix,
    Vec2Fix,
    Vec2Fix,
))
    requires
        screen_pos_origin.in_world(),
        screen_pos_target.in_world(),
    ensures
        ({
            let ex = screen_pos_target.x - screen_pos_origin.x;
            let ey = screen_pos_target.y - screen_pos_origin.y;
            let lo_x: int = if ex < 0 { ex } else { 0 };
            let hi_x: int = if ex > 0 { ex } else { 0 };
            let lo_y: int = if ey < 0 { ey } else { 0 };
            let hi_y: int = if ey > 0 { ey } else { 0 };
            &&& corners.0 == (Vec2Fix { x: lo_x as i64, y: hi_y as i64 })
            &&& corners.1 == (Vec2Fix { x: hi_x as i64, y: lo_y as i64 })
            &&& corners.2 == (Vec2Fix { x: lo_x as i64, y: lo_y as i64 })
            &&& corners.3 == (Vec2Fix { x: hi_x as i64, y: hi_y as i64 })
        }),
{
    let ex = screen_pos_target.x - screen_pos_origin.x;
    let ey = screen_pos_target.y - screen_pos_origin.y;
    let lo_x = if ex < 0 { ex } else { 0 };
    let hi_x = if ex > 0 { ex } else { 0 };
    let lo_y = if ey < 0 { ey } else { 0 };
    let hi_y = if ey > 0 { ey } else { 0 };
    let top_left = Vec2Fix { x: lo_x, y: hi_y };
    let bottom_right = Vec2Fix { x: hi_x, y: lo_y };
    let bottom_left = Vec2Fix { x: lo_x, y: lo_y };
    let top_right = Vec2Fix { x: hi_x, y: hi_y };
    (top_left, bottom_right, bottom_left, top_right)
}

} // verus!
