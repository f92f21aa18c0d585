//! Scrolling: an offset into content that is larger than its viewport

use crate::event::{ControlKey, Event, PressSource, Response, VoidMsg};
use crate::geom::{clamp_i32, to_i32, Coord, Offset, Rect, Size};
use crate::toolkit::TkAction;
use vstd::prelude::*;

verus! {

/// `v` limited to the range from `lo` to `hi`.
pub open spec fn clamp(v: int, lo: int, hi: int) -> int {
    if v < lo {
        lo
    } else if v > hi {
        hi
    } else {
        v
    }
}

/// `offset` limited, on each axis, to the range from zero to `max`.
pub open spec fn clamp_offset(offset: Offset, max: Offset) -> Offset {
    Offset(clamp(offset.0 as int, 0, max.0 as int) as i32, clamp(offset.1 as int, 0, max.1 as int) as i32)
}

/// How far content of size `content` can be scrolled in a viewport of size
/// `viewport`: by what it is larger, on each axis, and not at all where it
/// is not larger.
pub open spec fn scroll_range(viewport: Size, content: Size) -> Offset {
    Offset(
        clamp_i32(clamp(content.0 - viewport.0, 0, content.0 as int)),
        clamp_i32(clamp(content.1 - viewport.1, 0, content.1 as int)),
    )
}

/// The offset nearest to `current` at which a region that starts at
/// `start` (relative to the viewport, when nothing is scrolled) and has
/// extent `len` lies within a viewport of extent `view`. Where the region
/// is larger than the viewport, its start is shown.
pub open spec fn focus_target(current: int, start: int, len: int, view: int) -> int {
    let least = clamp_i32(clamp_i32(start + len) - view) as int;
    let raised = if current >= least {
        current
    } else {
        least
    };
    if raised <= start {
        raised
    } else {
        start
    }
}

fn limit(v: i32, hi: i32) -> (r: i32)
    ensures
        r == clamp(v as int, 0, hi as int),
{
    if v < 0 {
        0
    } else if v > hi {
        hi
    } else {
        v
    }
}

fn focus_axis(current: i32, start: i32, len: u32, view: u32) -> (r: i32)
    ensures
        r == focus_target(current as int, start as int, len as int, view as int),
{
    let end = to_i32(start as i64 + len as i64);
    let least = to_i32(end as i64 - view as i64);
    let raised = if current >= least {
        current
    } else {
        least
    };
    if raised <= start {
        raised
    } else {
        start
    }
}

/// Logic of a scrollable region
///
/// The component knows how far the content can be scrolled and how far it
/// is scrolled. The offset is the position, within the content, of the
/// top left corner of the viewport.
#[derive(Clone, Copy, Debug, PartialEq, Eq, Structural)]
pub struct ScrollComponent {
    pub max_offset: Offset,
    pub offset: Offset,
    pub scroll_rate: i32,
}

impl ScrollComponent {
    /// The offset lies between zero and the maximum offset on each axis.
    pub open spec fn wf(self) -> bool {
        &&& 0 <= self.offset.0 <= self.max_offset.0
        &&& 0 <= self.offset.1 <= self.max_offset.1
    }

    /// The component after a request to scroll to `offset`.
    pub open spec fn scrolled_to(self, offset: Offset) -> ScrollComponent {
        ScrollComponent { offset: clamp_offset(offset, self.max_offset), ..self }
    }

    /// The component after it was asked to bring `rect` into view: scrolled
    /// to the offset nearest to the present one at which `rect`, a region
    /// of the content, lies within the viewport `window_rect`, as far as
    /// the content can be scrolled.
    pub open spec fn focused(self, rect: Rect, window_rect: Rect) -> ScrollComponent {
        self.scrolled_to(
            Offset(
                focus_target(
                    self.offset.0 as int,
                    clamp_i32(rect.pos.0 - window_rect.pos.0) as int,
                    rect.size.0 as int,
                    window_rect.size.0 as int,
                ) as i32,
                focus_target(
                    self.offset.1 as int,
                    clamp_i32(rect.pos.1 - window_rect.pos.1) as int,
                    rect.size.1 as int,
                    window_rect.size.1 as int,
                ) as i32,
            ),
        )
    }

    /// Where the region `rect` of the content is seen, in the coordinates
    /// of the parent: moved back by the offset.
    pub open spec fn seen_at(self, rect: Rect) -> Rect {
        Rect {
            pos: Coord(clamp_i32(rect.pos.0 - self.offset.0), clamp_i32(rect.pos.1 - self.offset.1)),
            size: rect.size,
        }
    }

    /// The action that a change of offset from `self` to `after` calls for.
    pub open spec fn move_action(self, after: ScrollComponent) -> TkAction {
        if after.offset == self.offset {
            TkAction::Empty
        } else {
            TkAction::RegionMoved
        }
    }

    /// The offset that a key, a wheel or a dragged press asks for; `None`
    /// for events that do not scroll.
    pub open spec fn requested(self, event: Event, window_size: Size) -> Option<Offset> {
        match event {
            Event::Control(ControlKey::Home) => Some(Offset(0, 0)),
            Event::Control(ControlKey::End) => Some(self.max_offset),
            Event::Control(ControlKey::Left) => Some(
                Offset(clamp_i32(self.offset.0 - self.scroll_rate), self.offset.1),
            ),
            Event::Control(ControlKey::Right) => Some(
                Offset(clamp_i32(self.offset.0 + self.scroll_rate), self.offset.1),
            ),
            Event::Control(ControlKey::Up) => Some(
                Offset(self.offset.0, clamp_i32(self.offset.1 - self.scroll_rate)),
            ),
            Event::Control(ControlKey::Down) => Some(
                Offset(self.offset.0, clamp_i32(self.offset.1 + self.scroll_rate)),
            ),
            Event::Control(ControlKey::PageUp) => Some(
                Offset(self.offset.0, clamp_i32(self.offset.1 - window_size.1 / 2)),
            ),
            Event::Control(ControlKey::PageDown) => Some(
                Offset(self.offset.0, clamp_i32(self.offset.1 + window_size.1 / 2)),
            ),
            Event::Scroll(delta) => Some(
                Offset(clamp_i32(self.offset.0 - delta.0), clamp_i32(self.offset.1 - delta.1)),
            ),
            Event::PressMove { delta, .. } => Some(
                Offset(clamp_i32(self.offset.0 - delta.0), clamp_i32(self.offset.1 - delta.1)),
            ),
            _ => None,
        }
    }

    /// Construct: nothing to scroll, scrolled nowhere, thirty pixels to the
    /// line.
    pub fn new() -> (r: ScrollComponent)
        ensures
            r == (ScrollComponent { max_offset: Offset(0, 0), offset: Offset(0, 0), scroll_rate: 30 }),
            r.wf(),
    {
        ScrollComponent { max_offset: Offset(0, 0), offset: Offset(0, 0), scroll_rate: 30 }
    }

    /// Get the maximum offset
    #[inline]
    pub fn max_offset(&self) -> (r: Offset)
        ensures
            r == self.max_offset,
    {
        self.max_offset
    }

    /// Get the current offset
    #[inline]
    pub fn offset(&self) -> (r: Offset)
        ensures
            r == self.offset,
    {
        self.offset
    }

    /// Set the distance scrolled per line, in pixels
    pub fn set_scroll_rate(&mut self, rate: i32)
        ensures
            *final(self) == (ScrollComponent { scroll_rate: rate, ..*old(self) }),
    {
        self.scroll_rate = rate;
    }

    /// Set the sizes of the viewport and of the content
    ///
    /// The maximum offset becomes the amount by which the content is larger
    /// than the viewport, and the offset is limited to it. Returns
    /// `TkAction::RegionMoved` if that moved the content.
    pub fn set_sizes(&mut self, window_size: Size, content_size: Size) -> (action: TkAction)
        ensures
            final(self).max_offset == scroll_range(window_size, content_size),
            final(self).offset == clamp_offset(old(self).offset, final(self).max_offset),
            final(self).scroll_rate == old(self).scroll_rate,
            final(self).wf(),
            action == old(self).move_action(*final(self)),
    {
        let max_x = to_i32(limit_wide(content_size.0 as i64 - window_size.0 as i64, content_size.0));
        let max_y = to_i32(limit_wide(content_size.1 as i64 - window_size.1 as i64, content_size.1));
        self.max_offset = Offset(max_x, max_y);
        self.set_offset(self.offset)
    }

    /// Set the offset
    ///
    /// The offset is limited on each axis to the range from zero to the
    /// maximum offset. Returns `TkAction::RegionMoved` if the offset
    /// changed, `TkAction::Empty` if it did not.
    pub fn set_offset(&mut self, offset: Offset) -> (action: TkAction)
        ensures
            *final(self) == old(self).scrolled_to(offset),
            action == old(self).move_action(*final(self)),
            old(self).max_offset.0 >= 0 && old(self).max_offset.1 >= 0 ==> final(self).wf(),
    {
        let offset = Offset(limit(offset.0, self.max_offset.0), limit(offset.1, self.max_offset.1));
        if offset.0 == self.offset.0 && offset.1 == self.offset.1 {
            TkAction::Empty
        } else {
            self.offset = offset;
            TkAction::RegionMoved
        }
    }

    /// Scroll as little as possible to bring `rect` into view
    ///
    /// `rect` is given in the coordinates of the content and `window_rect`
    /// is the viewport in the coordinates of its parent. Returns `rect` in
    /// the coordinates of the parent, as it lies after scrolling, and
    /// `TkAction::RegionMoved` if the content moved.
    pub fn focus_rect(&mut self, rect: Rect, window_rect: Rect) -> (r: (Rect, TkAction))
        ensures
            *final(self) == old(self).focused(rect, window_rect),
            r.0 == final(self).seen_at(rect),
            r.1 == old(self).move_action(*final(self)),
    {
        let v = rect.pos.offset_from(window_rect.pos);
        let x = focus_axis(self.offset.0, v.0, rect.size.0, window_rect.size.0);
        let y = focus_axis(self.offset.1, v.1, rect.size.1, window_rect.size.1);
        let action = self.set_offset(Offset(x, y));
        let pos = Coord(
            to_i32(rect.pos.0 as i64 - self.offset.0 as i64),
            to_i32(rect.pos.1 as i64 - self.offset.1 as i64),
        );
        (Rect { pos, size: rect.size }, action)
    }

    /// Carry an event from the coordinates of the viewport over to those of
    /// the content
    ///
    /// A pointer at `coord` in the viewport is over `coord + offset` of the
    /// content. Events without a coordinate are returned as they are.
    pub fn offset_event(&self, event: Event) -> (r: Event)
        ensures
            r == event.moved(self.offset),
    {
        event.displaced(self.offset)
    }

    /// Use an event to scroll
    ///
    /// Control keys, the wheel and the movement of a grabbed press scroll.
    /// The start of a press is answered by asking for a grab: it is handed
    /// back as the third component, for the caller to pass on to the event
    /// manager. The end of a press is used without effect. Every other
    /// event is returned unhandled.
    pub fn scroll_by_event(&mut self, event: Event, window_size: Size) -> (r: (
        TkAction,
        Response<VoidMsg>,
        Option<(PressSource, Coord)>,
    ))
        ensures
            match old(self).requested(event, window_size) {
                Some(offset) => {
                    &&& *final(self) == old(self).scrolled_to(offset)
                    &&& r.0 == old(self).move_action(*final(self))
                    &&& r.1 is Used
                    &&& r.2.is_none()
                },
                None => {
                    &&& *final(self) == *old(self)
                    &&& r.0 == TkAction::Empty
                    &&& match event {
                        Event::PressStart { source, coord } => r.1 is Used && r.2 == Some(
                            (source, coord),
                        ),
                        Event::PressEnd { .. } => r.1 is Used && r.2.is_none(),
                        _ => r.1 == Response::<VoidMsg>::Unhandled(event) && r.2.is_none(),
                    }
                },
            },
    {
        let cur = self.offset;
        let rate = self.scroll_rate as i64;
        let target: Option<Offset> = match event {
            Event::Control(ControlKey::Home) => Some(Offset(0, 0)),
            Event::Control(ControlKey::End) => Some(self.max_offset),
            Event::Control(ControlKey::Left) => Some(Offset(to_i32(cur.0 as i64 - rate), cur.1)),
            Event::Control(ControlKey::Right) => Some(Offset(to_i32(cur.0 as i64 + rate), cur.1)),
            Event::Control(ControlKey::Up) => Some(Offset(cur.0, to_i32(cur.1 as i64 - rate))),
            Event::Control(ControlKey::Down) => Some(Offset(cur.0, to_i32(cur.1 as i64 + rate))),
            Event::Control(ControlKey::PageUp) => Some(
                Offset(cur.0, to_i32(cur.1 as i64 - (window_size.1 / 2) as i64)),
            ),
            Event::Control(ControlKey::PageDown) => Some(
                Offset(cur.0, to_i32(cur.1 as i64 + (window_size.1 / 2) as i64)),
            ),
            Event::Scroll(delta) => Some(
                Offset(to_i32(cur.0 as i64 - delta.0 as i64), to_i32(cur.1 as i64 - delta.1 as i64)),
            ),
            Event::PressMove { delta, .. } => Some(
                Offset(to_i32(cur.0 as i64 - delta.0 as i64), to_i32(cur.1 as i64 - delta.1 as i64)),
            ),
            _ => None,
        };
        match target {
            Some(offset) => {
                let action = self.set_offset(offset);
                (action, Response::Used, None)
            },
            None => match event {
                Event::PressStart { source, coord } => (
                    TkAction::Empty,
                    Response::Used,
                    Some((source, coord)),
                ),
                Event::PressEnd { .. } => (TkAction::Empty, Response::Used, None),
                e => (TkAction::Empty, Response::Unhandled(e), None),
            },
        }
    }
}

fn limit_wide(v: i64, hi: u32) -> (r: i64)
    ensures
        r == clamp(v as int, 0, hi as int),
{
    if v < 0 {
        0
    } else if v > hi as i64 {
        hi as i64
    } else {
        v
    }
}

/// After a request to scroll to `o`, the offset is `o` limited to the range
/// from zero to the maximum offset, on each axis by itself.
pub proof fn lemma_set_offset_clamps(s: ScrollComponent, o: Offset)
    ensures
        s.scrolled_to(o).offset.0 == clamp(o.0 as int, 0, s.max_offset.0 as int),
        s.scrolled_to(o).offset.1 == clamp(o.1 as int, 0, s.max_offset.1 as int),
        s.scrolled_to(o).max_offset == s.max_offset,
{
}

/// Scrolling to where one is changes nothing, as long as there is a range
/// to scroll in.
pub proof fn lemma_set_offset_idempotent(s: ScrollComponent, o: Offset)
    requires
        s.max_offset.0 >= 0,
        s.max_offset.1 >= 0,
    ensures
        s.scrolled_to(o).wf(),
        s.scrolled_to(s.scrolled_to(o).offset) == s.scrolled_to(o),
        s.wf() ==> s.scrolled_to(s.offset) == s,
{
}

/// The maximum offset is, on each axis, the amount by which the content is
/// larger than the viewport, or zero.
pub proof fn lemma_scroll_range(viewport: Size, content: Size)
    ensures
        scroll_range(viewport, content).0 == clamp_i32(
            if content.0 > viewport.0 {
                content.0 - viewport.0
            } else {
                0
            },
        ),
        scroll_range(viewport, content).1 == clamp_i32(
            if content.1 > viewport.1 {
                content.1 - viewport.1
            } else {
                0
            },
        ),
        scroll_range(viewport, content).0 >= 0,
        scroll_range(viewport, content).1 >= 0,
{
}

/// Once a region that fits into the viewport has been brought into view, it
/// lies within the viewport, if the offset could be set as asked.
pub proof fn lemma_focus_target_shows_region(current: int, start: int, len: int, view: int)
    requires
        0 <= len <= view,
        i32::MIN <= start,
        start + len <= i32::MAX,
        i32::MIN <= start + len - view,
    ensures
        ({
            let o = focus_target(current, start, len, view);
            &&& 0 <= start - o
            &&& start - o + len <= view
            &&& (0 <= start - current && start - current + len <= view ==> o == current)
        }),
{
}

} // verus!
