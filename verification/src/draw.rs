//! What the theme tells layout, and what widgets tell the renderer

use crate::data::WidgetId;
use crate::geom::{clamp_i32, to_i32, Offset, Rect};
use crate::layout::{Margins, SizeRules, StretchPolicy};
use vstd::prelude::*;

verus! {

/// Input state of a widget, for drawing
#[derive(Clone, Copy, Debug, Default, PartialEq, Eq, Structural)]
pub struct InputState {
    /// Disabled widgets are not responsive to input and usually drawn in grey
    pub disabled: bool,
    /// Some widgets show an error state
    pub error: bool,
    /// The pointer is over the widget
    pub hover: bool,
    /// The widget is pressed
    pub depress: bool,
    /// The widget has keyboard navigation focus
    pub nav_focus: bool,
    /// The widget receives characters typed
    pub char_focus: bool,
}

/// Sizes that the theme supplies to layout, in pixels
#[derive(Clone, Copy, Debug, PartialEq, Eq, Structural)]
pub struct SizeHandle {
    /// Thickness of one side of a frame
    pub frame: u16,
    /// Margin around a widget
    pub margin: i16,
    /// Height of a line of text
    pub line_height: u16,
    /// Advance of one character of text
    pub char_width: u16,
}

impl SizeHandle {
    /// Rules of a frame along either axis: one side before the content and
    /// two sides in all, with the theme's margin outside.
    pub open spec fn frame_rules(self) -> SizeRules {
        SizeRules {
            min: self.frame as i32,
            ideal: (2 * self.frame) as i32,
            margins: Margins(self.margin, self.margin),
            stretch: StretchPolicy::Fixed,
        }
    }

    /// Rules of a line of `chars` characters: as wide as its characters and
    /// as high as a line, of fixed size.
    pub open spec fn text_rules(self, chars: nat, vertical: bool) -> SizeRules {
        let size = if vertical {
            self.line_height as i32
        } else {
            clamp_i32(self.char_width * chars)
        };
        SizeRules {
            min: size,
            ideal: size,
            margins: Margins(self.margin, self.margin),
            stretch: StretchPolicy::Fixed,
        }
    }

    /// Size rules of a frame around content
    ///
    /// The result is meant for `SizeRules::surround`.
    pub fn frame(&self, vertical: bool) -> (r: SizeRules)
        ensures
            r == self.frame_rules(),
            r.wf(),
    {
        let side = self.frame as i32;
        SizeRules::new(side, 2 * side, Margins(self.margin, self.margin), StretchPolicy::Fixed)
    }

    /// Size rules of one line of text of `chars` characters
    pub fn text_bound(&self, chars: usize, vertical: bool) -> (r: SizeRules)
        ensures
            r == self.text_rules(chars as nat, vertical),
            r.wf(),
    {
        let size = if vertical {
            self.line_height as i32
        } else if chars > 0x7FFF_FFFF {
            assert(self.char_width * chars >= chars || self.char_width == 0) by (nonlinear_arith)
                requires
                    self.char_width >= 0,
                    chars >= 0,
            ;
            if self.char_width == 0 {
                assert(self.char_width * chars == 0) by (nonlinear_arith)
                    requires
                        self.char_width == 0,
                ;
                0
            } else {
                i32::MAX
            }
        } else {
            assert(0 <= self.char_width * chars <= 0xFFFF * 0x7FFF_FFFF) by (nonlinear_arith)
                requires
                    0 <= self.char_width <= 0xFFFF,
                    0 <= chars <= 0x7FFF_FFFF,
            ;
            to_i32(self.char_width as i64 * chars as i64)
        };
        SizeRules::fixed(size, Margins(self.margin, self.margin))
    }
}

/// One instruction to the renderer
#[derive(Clone, Copy, Debug, PartialEq, Eq, Structural)]
pub enum DrawCmd {
    /// Draw the text of the widget `id` within `rect`
    Text { id: WidgetId, rect: Rect, state: InputState },
    /// Draw a frame and its background
    MenuFrame { rect: Rect },
    /// What follows, up to the matching `ClipEnd`, is scrolled by `offset`
    /// and clipped to `rect`
    ClipBegin { rect: Rect, offset: Offset },
    /// End of a clip region
    ClipEnd,
}

/// Collects the instructions that widgets give to the renderer
pub struct DrawHandle {
    pub cmds: Vec<DrawCmd>,
}

impl DrawHandle {
    /// Construct without instructions
    pub fn new() -> (r: DrawHandle)
        ensures
            r.cmds@ == Seq::<DrawCmd>::empty(),
    {
        DrawHandle { cmds: Vec::new() }
    }

    /// Append an instruction
    pub fn push(&mut self, cmd: DrawCmd)
        ensures
            final(self).cmds@ == old(self).cmds@.push(cmd),
    {
        self.cmds.push(cmd);
    }
}

} // verus!
