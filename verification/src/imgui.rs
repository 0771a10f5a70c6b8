//! Measures of the user interface.

use vstd::prelude::*;

verus! {

/// A rectangle of the screen, in pixels.
#[derive(Clone, Copy, Debug, PartialEq, Eq, Structural)]
pub struct ScreenRect {
    pub x: i32,
    pub y: i32,
    pub width: i32,
    pub height: i32,
}

/// The widths of the four margins of a rectangle.
#[derive(Clone, Copy, Debug, PartialEq, Eq, Structural)]
pub struct RectSides {
    pub left: i32,
    pub right: i32,
    pub top: i32,
    pub bottom: i32,
}

impl RectSides {
    /// The left and the right margin together.
    pub fn horizontal(&self) -> (r: i32)
        requires
            i32::MIN <= self.left + self.right <= i32::MAX,
        ensures
            r == self.left + self.right,
    {
        self.left + self.right
    }

    /// The upper and the lower margin together.
    pub fn vertical(&self) -> (r: i32)
        requires
            i32::MIN <= self.top + self.bottom <= i32::MAX,
        ensures
            r == self.top + self.bottom,
    {
        self.top + self.bottom
    }
}

/// The margins that the parts of a window keep.
#[derive(Clone, Copy, Debug, PartialEq, Eq, Structural)]
pub struct Style {
    pub window_title_margin: RectSides,
    pub label_margin: RectSides,
}

impl Style {
    /// The rectangle of a window that is centred on a screen of
    /// `screen_width` by `screen_height` pixels and just holds a title of
    /// `title_width` by `title_height` pixels with its margin.
    pub fn centered_window(
        &self,
        screen_width: i32,
        screen_height: i32,
        title_width: i32,
        title_height: i32,
    ) -> (rect: ScreenRect)
        requires
            i32::MIN <= self.window_title_margin.left + self.window_title_margin.right <= i32::MAX,
            i32::MIN <= self.window_title_margin.top + self.window_title_margin.bottom <= i32::MAX,
            i32::MIN <= title_width + (self.window_title_margin.left + self.window_title_margin.right)
                <= i32::MAX,
            i32::MIN <= title_height + (self.window_title_margin.top
                + self.window_title_margin.bottom) <= i32::MAX,
            i32::MIN <= screen_width - (title_width + (self.window_title_margin.left
                + self.window_title_margin.right)) <= i32::MAX,
            i32::MIN <= screen_height - (title_height + (self.window_title_margin.top
                + self.window_title_margin.bottom)) <= i32::MAX,
        ensures
            rect.width == title_width + self.window_title_margin.left
                + self.window_title_margin.right,
            rect.height == title_height + self.window_title_margin.top
                + self.window_title_margin.bottom,
            rect.x == half(screen_width - rect.width),
            rect.y == half(screen_height - rect.height),
    {
        let width: i32 = title_width + self.window_title_margin.horizontal();
        let height: i32 = title_height + self.window_title_margin.vertical();
        ScreenRect { x: (screen_width - width) / 2, y: (screen_height - height) / 2, width, height }
    }
}

/// Half of `a`, rounded towards zero.
pub open spec fn half(a: int) -> int {
    if a >= 0 {
        a / 2
    } else {
        -((-a) / 2)
    }
}

} // verus!
