//! Screen-space layout for the renderer.
//!
//! The drawing itself — the window, the canvas, the textures — lives outside
//! this library. This module holds the arithmetic the renderer uses to place
//! each sprite on screen: the camera-focused entity is put in the center of
//! the screen, and every sprite is drawn relative to that.

use vstd::prelude::*;

use crate::math::{Point, Rect};

verus! {

impl Point {
    /// The world position of the screen's top-left corner when this point is
    /// the camera focus: the focus, moved up and left by half a screen.
    pub fn render_center(self, screen_width: u32, screen_height: u32) -> (center: Point)
        requires
            screen_width <= i32::MAX,
            screen_height <= i32::MAX,
            i32::MIN <= self.x - screen_width / 2,
            i32::MIN <= self.y - screen_height / 2,
        ensures
            center.x == self.x - screen_width / 2,
            center.y == self.y - screen_height / 2,
    {
        Point { x: self.x - (screen_width as i32) / 2, y: self.y - (screen_height as i32) / 2 }
    }
}

/// The screen rectangle a sprite is drawn into: its spritesheet region's
/// size, centered on the entity's position relative to the screen's
/// top-left corner.
pub fn sprite_destination(render_center: Point, entity_position: Point, region: Rect) -> (dest:
    Rect)
    requires
        region.width <= i32::MAX,
        region.height <= i32::MAX,
        i32::MIN <= entity_position.x - render_center.x <= i32::MAX,
        i32::MIN <= entity_position.y - render_center.y <= i32::MAX,
        i32::MIN <= entity_position.x - render_center.x - region.width / 2,
        i32::MIN <= entity_position.y - render_center.y - region.height / 2,
    ensures
        dest.x == entity_position.x - render_center.x - region.width / 2,
        dest.y == entity_position.y - render_center.y - region.height / 2,
        dest.width == region.width,
        dest.height == region.height,
{
    let screen_position = Point {
        x: entity_position.x - render_center.x,
        y: entity_position.y - render_center.y,
    };
    let mut dest = region;
    dest.center_on(screen_position);
    dest
}

} // verus!
