//! A window: a widget tree, the event manager of the window, and what the
//! event loop asks of both

use crate::data::WidgetId;
use crate::delivery::unused;
use crate::draw::{DrawHandle, SizeHandle};
use crate::event::events::{Event, UpdateHandle};
use crate::event::manager::{due_count, subscribed, timers_sorted, ManagerState, Timer};
use crate::event::response::{Response, VoidMsg};
use crate::event::routing::{told, Input};
use crate::event::timers::{after_fire, lemma_after_fire};
use crate::geom::{Coord, Rect, Size};
use crate::layout::sizer::{solve_size_rules, solved};
use crate::layout::AlignHints;
use crate::model::WidgetModel;
use crate::shape::{
    lemma_ids_kept_configured, lemma_placed_ids, lemma_renumbered_wf, lemma_timer_update_unused,
};
use crate::toolkit::{lemma_join_is_least_upper_bound, TkAction};
use crate::traits::{EventHandler, Layout, WidgetCore};
use crate::widget::any::AnyWidget;
use vstd::prelude::*;

verus! {

/// What the event loop tells a window
#[derive(Clone, Copy, Debug, PartialEq, Eq, Structural)]
pub enum WindowEvent {
    /// The window has the given size now
    Resized(Size),
    /// The window is to be drawn
    RedrawRequested,
    /// The sizes of the theme changed, as with the scale factor
    ThemeResized(SizeHandle),
    /// Input for the widgets
    Input(Input),
}

/// When a widget wants to be called back
#[derive(Clone, Copy, Debug, PartialEq, Eq, Structural)]
pub enum Callback {
    /// Once, when the window starts
    Start,
    /// When the window starts, and then again and again after the given
    /// interval
    Repeat(u64),
}

/// A widget's wish to be called back
#[derive(Clone, Copy, Debug, PartialEq, Eq, Structural)]
pub struct CallbackRequest {
    pub id: WidgetId,
    pub when: Callback,
}

/// The timers after every timer that is due at `now` has fired.
pub open spec fn fired_all(timers: Seq<Timer>, now: u64) -> Seq<Timer>
    decreases due_count(timers, now),
    when timers_sorted(timers)
    via fired_all_decreases
{
    if timers.len() > 0 && timers[0].at <= now {
        fired_all(after_fire(timers, now), now)
    } else {
        timers
    }
}

#[via_fn]
proof fn fired_all_decreases(timers: Seq<Timer>, now: u64) {
    if timers.len() > 0 && timers[0].at <= now {
        lemma_after_fire(timers, now);
    }
}

/// The timers after the callbacks `requests` were registered at `now`:
/// each repeating callback has a timer one interval after `now`.
pub open spec fn with_callbacks(timers: Seq<Timer>, requests: Seq<CallbackRequest>, now: u64) -> Seq<Timer>
    decreases requests.len(),
{
    if requests.len() == 0 {
        timers
    } else {
        let before = with_callbacks(timers, requests.drop_last(), now);
        match requests.last().when {
            Callback::Repeat(every) => if now + every <= u64::MAX {
                let timer = Timer { at: (now + every) as u64, id: requests.last().id, every };
                before.insert(due_count(before, timer.at) as int, timer)
            } else {
                before
            },
            Callback::Start => before,
        }
    }
}

/// Per-window data
///
/// `configured` tells whether the widgets are numbered. They are not when
/// there are more widgets than identifiers; such a window handles no input
/// and asks to be closed.
pub struct Window {
    pub widget: AnyWidget,
    pub ev_mgr: ManagerState,
    pub size: Size,
    pub configured: bool,
}

impl Window {
    /// The manager is well formed, and the tree is configured, numbered
    /// from one, unless the window says that it is not configured.
    pub open spec fn held(&self) -> bool {
        &&& self.ev_mgr.wf()
        &&& self.configured ==> {
            &&& self.widget@.configured()
            &&& self.widget@.core.id == WidgetId(1)
            &&& 1 + self.widget@.count() <= u64::MAX
        }
    }

    /// The tree and the manager are well formed, and the tree is
    /// configured, numbered from one, unless the window says that it is
    /// not configured.
    pub open spec fn wf(&self) -> bool {
        self.widget@.wf() && self.held()
    }

    /// What a window asks for that could not number its widgets: to be
    /// closed.
    pub open spec fn closing(configured: bool) -> TkAction {
        if configured {
            TkAction::Empty
        } else {
            TkAction::Close
        }
    }

    /// What laying out the widget tree `w` in a window of the size `size`
    /// asks of the toolkit.
    pub open spec fn laid_action(w: WidgetModel, sh: SizeHandle, size: Size) -> TkAction {
        Window::sized(w, sh, size).placing_action(Window::area(size), AlignHints::no_hints())
    }

    /// What is pending after a window with `pending` pending was
    /// reconfigured: what was pending, what laying out the numbered tree
    /// asked for, a redraw, and a request to close the window if its
    /// widgets could not be numbered.
    pub open spec fn reconfigured_action(
        pending: TkAction,
        w: WidgetModel,
        sh: SizeHandle,
        size: Size,
        configured: bool,
    ) -> TkAction {
        pending.join(Window::closing(1 + w.count() <= u64::MAX)).join(
            Window::laid_action(Window::numbered(w), sh, size),
        ).join(Window::closing(configured)).join(TkAction::Redraw)
    }

    /// The region of the whole window.
    pub open spec fn area(size: Size) -> Rect {
        Rect { pos: Coord(0, 0), size }
    }

    /// The widget tree numbered from one, if it has no more widgets than
    /// there are identifiers.
    pub open spec fn numbered(w: WidgetModel) -> WidgetModel {
        if 1 + w.count() <= u64::MAX {
            w.renumbered(1)
        } else {
            w
        }
    }

    /// The widget tree with its size rules solved for the size `size`.
    pub open spec fn sized(w: WidgetModel, sh: SizeHandle, size: Size) -> WidgetModel {
        solved(w, sh, Some(size.0), Some(size.1))
    }

    /// Construct a window
    ///
    /// The widgets are configured and laid out for the given size.
    pub fn new(sizes: SizeHandle, widget: AnyWidget, size: Size) -> (r: Window)
        requires
            widget@.shaped(),
        ensures
            r.wf(),
            r.size == size,
            r.ev_mgr.sizes == sizes,
            r.ev_mgr.timers@.len() == 0,
            Window::sized(Window::numbered(widget@), sizes, size).placed_then_renumbered(
                r.widget@,
                size,
                1 + widget@.count() <= u64::MAX,
                r.configured,
            ),
            r.ev_mgr.action == Window::reconfigured_action(
                TkAction::Empty,
                widget@,
                sizes,
                size,
                r.configured,
            ),
    {
        let mut window = Window {
            widget,
            ev_mgr: ManagerState::new(sizes),
            size,
            configured: false,
        };
        window.reconfigure();
        window
    }

    /// Number the widgets anew, if there are identifiers enough
    ///
    /// A window whose widgets cannot be numbered asks to be closed.
    fn number(&mut self)
        requires
            old(self).widget@.shaped(),
            old(self).ev_mgr.wf(),
        ensures
            final(self).held(),
            final(self).widget@.shaped(),
            old(self).widget@.wf() ==> final(self).widget@.wf(),
            final(self).size == old(self).size,
            final(self).configured == (1 + old(self).widget@.count() <= u64::MAX),
            final(self).widget@ == Window::numbered(old(self).widget@),
            final(self).ev_mgr.sizes == old(self).ev_mgr.sizes,
            final(self).ev_mgr.timers@ == old(self).ev_mgr.timers@,
            final(self).ev_mgr.action == old(self).ev_mgr.action.join(
                Window::closing(final(self).configured),
            ),
    {
        match self.widget.count_within(u64::MAX - 1) {
            Some(_) => {
                proof {
                    lemma_renumbered_wf(self.widget@, 1);
                }
                self.ev_mgr.configure(&mut self.widget);
                self.configured = true;
            },
            None => {
                self.ev_mgr.send_action(TkAction::Close);
                self.configured = false;
            },
        }
    }

    /// Solve the size rules of the widgets and give them their regions
    ///
    /// Returns what laying out asked of the toolkit. The action is added to
    /// what is pending.
    fn lay_out(&mut self) -> (laid: TkAction)
        requires
            old(self).widget@.shaped(),
            old(self).ev_mgr.wf(),
        ensures
            final(self).widget@.wf(),
            final(self).ev_mgr.wf(),
            final(self).size == old(self).size,
            final(self).configured == old(self).configured,
            Window::sized(old(self).widget@, old(self).ev_mgr.sizes, old(self).size).placed(
                final(self).widget@,
                Window::area(old(self).size),
                AlignHints::no_hints(),
            ),
            laid == Window::laid_action(old(self).widget@, old(self).ev_mgr.sizes, old(self).size),
            final(self).ev_mgr.action == old(self).ev_mgr.action.join(laid),
            final(self).ev_mgr.same_but_action(&old(self).ev_mgr),
    {
        let sizes = self.ev_mgr.sizes;
        solve_size_rules(&mut self.widget, &sizes, Some(self.size.0), Some(self.size.1));
        let pending = self.ev_mgr.take_action();
        let rect = Rect { pos: Coord(0, 0), size: self.size };
        self.widget.set_rect(&mut self.ev_mgr, rect, AlignHints::none());
        let laid = self.ev_mgr.take_action();
        self.ev_mgr.send_action(pending.max(laid));
        proof {
            lemma_join_is_least_upper_bound(TkAction::Empty, laid, pending);
        }
        laid
    }

    /// Number the widgets anew, recompute their layout and redraw
    ///
    /// The widgets are numbered first and laid out then. Where laying out
    /// makes or drops widgets, the widgets are numbered once more. The
    /// tree need not be well formed beforehand: a list whose data was
    /// changed serves its data again afterwards.
    pub fn reconfigure(&mut self)
        requires
            old(self).widget@.shaped(),
            old(self).ev_mgr.wf(),
        ensures
            final(self).wf(),
            final(self).size == old(self).size,
            final(self).ev_mgr.sizes == old(self).ev_mgr.sizes,
            final(self).ev_mgr.timers@ == old(self).ev_mgr.timers@,
            Window::sized(
                Window::numbered(old(self).widget@),
                old(self).ev_mgr.sizes,
                old(self).size,
            ).placed_then_renumbered(
                final(self).widget@,
                old(self).size,
                1 + old(self).widget@.count() <= u64::MAX,
                final(self).configured,
            ),
            final(self).ev_mgr.action == Window::reconfigured_action(
                old(self).ev_mgr.action,
                old(self).widget@,
                old(self).ev_mgr.sizes,
                old(self).size,
                final(self).configured,
            ),
    {
        self.number();
        self.relayout();
        self.ev_mgr.send_action(TkAction::Redraw);
    }

    /// Called by the toolkit when the event loop starts to initialise
    /// windows
    ///
    /// Each widget that asked to be called back is sent a timer event now;
    /// for those that asked to be called again and again, a timer is set.
    /// Returns the instant of the next wake-up, if there is one.
    pub fn init(&mut self, now: u64, requests: &Vec<CallbackRequest>) -> (r: Option<u64>)
        requires
            old(self).wf(),
        ensures
            final(self).wf(),
            final(self).configured == old(self).configured,
            final(self).size == old(self).size,
            final(self).widget@ == old(self).widget@,
            final(self).configured ==> final(self).ev_mgr.timers@ == with_callbacks(
                old(self).ev_mgr.timers@,
                requests@,
                now,
            ),
            !final(self).configured ==> final(self).ev_mgr.timers@ == old(self).ev_mgr.timers@,
            final(self).ev_mgr.timers@.len() == 0 ==> r.is_none(),
            final(self).ev_mgr.timers@.len() > 0 ==> r == Some(final(self).ev_mgr.timers@[0].at),
    {
        if self.configured {
            let mut i: usize = 0;
            proof {
                assert(requests@.subrange(0, 0) =~= Seq::<CallbackRequest>::empty());
            }
            while i < requests.len()
                invariant
                    i <= requests@.len(),
                    self.wf(),
                    self.configured,
                    self.size == old(self).size,
                    self.widget@ == old(self).widget@,
                    self.ev_mgr.timers@ == with_callbacks(
                        old(self).ev_mgr.timers@,
                        requests@.subrange(0, i as int),
                        now,
                    ),
                decreases requests@.len() - i,
            {
                let request = requests[i];
                let ghost tree = self.widget@;
                proof {
                    assert(requests@.subrange(0, i + 1).drop_last() =~= requests@.subrange(
                        0,
                        i as int,
                    ));
                    assert(requests@.subrange(0, i + 1).last() == request);
                }
                self.widget.event(&mut self.ev_mgr, request.id, Event::TimerUpdate);
                proof {
                    lemma_timer_update_unused(tree, self.widget@, request.id);
                }
                match request.when {
                    Callback::Repeat(every) => {
                        if let Some(at) = now.checked_add(every) {
                            self.ev_mgr.update_on_timer(at, request.id, every);
                        }
                    },
                    Callback::Start => {},
                }
                i += 1;
            }
            proof {
                assert(requests@.subrange(0, i as int) =~= requests@);
            }
        }
        self.next_resume()
    }

    /// Handle an event
    ///
    /// A change of size or of the sizes of the theme has the widgets laid
    /// out anew; what is returned then is what was pending and what laying
    /// out asked for, and no more. A request to redraw changes nothing.
    /// Input is routed and sent to the widgets; a window that is not
    /// configured takes no input. Returns what is asked of the toolkit,
    /// which is no longer pending then.
    pub fn handle_event(&mut self, event: WindowEvent) -> (action: TkAction)
        requires
            old(self).wf(),
        ensures
            final(self).wf(),
            final(self).ev_mgr.action == TkAction::Empty,
            match event {
                WindowEvent::Resized(size) => {
                    &&& final(self).size == size
                    &&& final(self).ev_mgr.sizes == old(self).ev_mgr.sizes
                    &&& if size == old(self).size {
                        &&& final(self).widget@ == old(self).widget@
                        &&& final(self).configured == old(self).configured
                        &&& action == old(self).ev_mgr.action
                    } else {
                        &&& Window::sized(
                            old(self).widget@,
                            old(self).ev_mgr.sizes,
                            size,
                        ).placed_then_renumbered(
                            final(self).widget@,
                            size,
                            old(self).configured,
                            final(self).configured,
                        )
                        &&& action == old(self).ev_mgr.action.join(
                            Window::laid_action(old(self).widget@, old(self).ev_mgr.sizes, size),
                        ).join(Window::closing(final(self).configured))
                    }
                },
                WindowEvent::RedrawRequested => {
                    &&& final(self).size == old(self).size
                    &&& final(self).widget@ == old(self).widget@
                    &&& final(self).configured == old(self).configured
                    &&& action == old(self).ev_mgr.action
                },
                WindowEvent::ThemeResized(sizes) => {
                    &&& final(self).size == old(self).size
                    &&& final(self).ev_mgr.sizes == sizes
                    &&& Window::sized(old(self).widget@, sizes, old(self).size).placed_then_renumbered(
                        final(self).widget@,
                        old(self).size,
                        old(self).configured,
                        final(self).configured,
                    )
                    &&& action == old(self).ev_mgr.action.join(
                        Window::laid_action(old(self).widget@, sizes, old(self).size),
                    ).join(Window::closing(final(self).configured))
                },
                WindowEvent::Input(input) => {
                    &&& final(self).size == old(self).size
                    &&& final(self).configured == old(self).configured
                    &&& final(self).ev_mgr.sizes == old(self).ev_mgr.sizes
                    &&& if old(self).configured {
                        exists|
                            next: Option<WidgetId>,
                            mid: ManagerState,
                            post: ManagerState,
                            r: Option<Response<VoidMsg>>,
                        |
                            {
                                &&& #[trigger] old(self).ev_mgr.handled(
                                    &mid,
                                    &post,
                                    old(self).widget@,
                                    final(self).widget@,
                                    input,
                                    next,
                                    r,
                                )
                                &&& action == post.action
                                &&& final(self).ev_mgr.same_but_action(&post)
                            }
                    } else {
                        &&& final(self).widget@ == old(self).widget@
                        &&& action == old(self).ev_mgr.action.join(TkAction::Close)
                    }
                },
            },
    {
        match event {
            WindowEvent::Resized(size) => {
                self.do_resize(size);
            },
            WindowEvent::RedrawRequested => {},
            WindowEvent::ThemeResized(sizes) => {
                self.ev_mgr.sizes = sizes;
                proof {
                    crate::placement::lemma_wf_shaped(self.widget@);
                }
                self.relayout();
            },
            WindowEvent::Input(input) => {
                if self.configured {
                    let r = self.ev_mgr.handle(&mut self.widget, input);
                    proof {
                        let (next, mid) = choose|next: Option<WidgetId>, mid: ManagerState| #[trigger]
                            old(self).ev_mgr.handled(
                                &mid,
                                &self.ev_mgr,
                                old(self).widget@,
                                self.widget@,
                                input,
                                next,
                                r,
                            );
                        assert(old(self).ev_mgr.handled(
                            &mid,
                            &self.ev_mgr,
                            old(self).widget@,
                            self.widget@,
                            input,
                            next,
                            r,
                        ));
                    }
                    let action = self.ev_mgr.take_action();
                    return action;
                } else {
                    self.ev_mgr.send_action(TkAction::Close);
                }
            },
        }
        self.ev_mgr.take_action()
    }

    /// Tell the widgets that the data behind `handle` changed
    ///
    /// Every widget that subscribed to the handle is sent the event.
    /// Returns what is asked of the toolkit, which is no longer pending
    /// then.
    pub fn update(&mut self, handle: UpdateHandle, payload: u64) -> (action: TkAction)
        requires
            old(self).wf(),
        ensures
            final(self).wf(),
            final(self).size == old(self).size,
            final(self).configured == old(self).configured,
            final(self).ev_mgr.action == TkAction::Empty,
            exists|post: ManagerState|
                {
                    &&& #[trigger] told(
                        old(self).widget@,
                        final(self).widget@,
                        &old(self).ev_mgr,
                        &post,
                        subscribed(old(self).ev_mgr.handles@, handle),
                        Event::HandleUpdate { handle, payload },
                    )
                    &&& action == post.action
                    &&& final(self).ev_mgr.same_but_action(&post)
                },
    {
        let ghost tree = self.widget@;
        self.ev_mgr.trigger_update(&mut self.widget, handle, payload);
        proof {
            if self.configured {
                lemma_ids_kept_configured(tree, self.widget@);
            }
        }
        let ghost post = self.ev_mgr;
        let action = self.ev_mgr.take_action();
        proof {
            assert(told(
                old(self).widget@,
                self.widget@,
                &old(self).ev_mgr,
                &post,
                subscribed(old(self).ev_mgr.handles@, handle),
                Event::HandleUpdate { handle, payload },
            ));
        }
        action
    }

    /// Fire the timers that are due at `now`
    ///
    /// Each timer that is due tells its widget, in the order of the
    /// instants. Timers that fire once are dropped; those that repeat are
    /// set to their next instant after `now`. Returns what is asked of the
    /// toolkit, and the instant of the next wake-up, if there is one.
    pub fn timer_resume(&mut self, now: u64) -> (r: (TkAction, Option<u64>))
        requires
            old(self).wf(),
        ensures
            final(self).wf(),
            final(self).size == old(self).size,
            final(self).configured == old(self).configured,
            final(self).widget@ == old(self).widget@,
            final(self).ev_mgr.timers@ == fired_all(old(self).ev_mgr.timers@, now),
            due_count(final(self).ev_mgr.timers@, now) == 0,
            final(self).ev_mgr.same_but_grabs_and_timers(&old(self).ev_mgr),
            final(self).ev_mgr.grabs@ == old(self).ev_mgr.grabs@,
            final(self).ev_mgr.action == TkAction::Empty,
            r.0 == old(self).ev_mgr.action,
            final(self).ev_mgr.timers@.len() == 0 ==> r.1.is_none(),
            final(self).ev_mgr.timers@.len() > 0 ==> r.1 == Some(final(self).ev_mgr.timers@[0].at)
                && final(self).ev_mgr.timers@[0].at > now,
    {
        loop
            invariant
                self.wf(),
                self.size == old(self).size,
                self.configured == old(self).configured,
                self.widget@ == old(self).widget@,
                self.ev_mgr.same_but_grabs_and_timers(&old(self).ev_mgr),
                self.ev_mgr.grabs@ == old(self).ev_mgr.grabs@,
                self.ev_mgr.action == old(self).ev_mgr.action,
                fired_all(self.ev_mgr.timers@, now) == fired_all(old(self).ev_mgr.timers@, now),
            ensures
                self.wf(),
                self.size == old(self).size,
                self.configured == old(self).configured,
                self.widget@ == old(self).widget@,
                self.ev_mgr.same_but_grabs_and_timers(&old(self).ev_mgr),
                self.ev_mgr.grabs@ == old(self).ev_mgr.grabs@,
                self.ev_mgr.action == old(self).ev_mgr.action,
                self.ev_mgr.timers@ == fired_all(old(self).ev_mgr.timers@, now),
                due_count(self.ev_mgr.timers@, now) == 0,
            decreases due_count(self.ev_mgr.timers@, now),
        {
            let ghost tree = self.widget@;
            match self.ev_mgr.pop_due_timer(now) {
                Some(id) => {
                    self.widget.event(&mut self.ev_mgr, id, Event::TimerUpdate);
                    proof {
                        lemma_timer_update_unused(tree, self.widget@, id);
                    }
                },
                None => {
                    break ;
                },
            }
        }
        proof {
            crate::event::timers::lemma_due_count(self.ev_mgr.timers@, now);
        }
        let action = self.ev_mgr.take_action();
        (action, self.next_resume())
    }

    /// The instant of the next wake-up, if any timer is pending
    pub fn next_resume(&self) -> (r: Option<u64>)
        ensures
            self.ev_mgr.timers@.len() == 0 ==> r.is_none(),
            self.ev_mgr.timers@.len() > 0 ==> r == Some(self.ev_mgr.timers@[0].at),
    {
        self.ev_mgr.next_resume()
    }

    /// Lay the widgets out anew, and number them anew where widgets were
    /// made or dropped
    fn relayout(&mut self)
        requires
            old(self).widget@.shaped(),
            old(self).held(),
        ensures
            final(self).wf(),
            final(self).size == old(self).size,
            final(self).ev_mgr.sizes == old(self).ev_mgr.sizes,
            final(self).ev_mgr.timers@ == old(self).ev_mgr.timers@,
            Window::sized(
                old(self).widget@,
                old(self).ev_mgr.sizes,
                old(self).size,
            ).placed_then_renumbered(
                final(self).widget@,
                old(self).size,
                old(self).configured,
                final(self).configured,
            ),
            final(self).ev_mgr.action == old(self).ev_mgr.action.join(
                Window::laid_action(old(self).widget@, old(self).ev_mgr.sizes, old(self).size),
            ).join(Window::closing(final(self).configured)),
    {
        let ghost sized = Window::sized(self.widget@, self.ev_mgr.sizes, self.size);
        let ghost pre = self.widget@;
        let laid = self.lay_out();
        if !self.configured || laid.level() >= TkAction::Reconfigure.level() {
            proof {
                crate::placement::lemma_wf_shaped(self.widget@);
            }
            self.number();
        } else {
            proof {
                crate::placement::lemma_solved(
                    pre,
                    old(self).ev_mgr.sizes,
                    Some(old(self).size.0),
                    Some(old(self).size.1),
                );
                lemma_placed_ids(
                    sized,
                    self.widget@,
                    Window::area(self.size),
                    AlignHints::no_hints(),
                );
                crate::shape::lemma_ids_kept_transitive(pre, sized, self.widget@);
                lemma_ids_kept_configured(pre, self.widget@);
                lemma_join_is_least_upper_bound(self.ev_mgr.action, TkAction::Empty, TkAction::Empty);
            }
        }
    }

    /// Take note of a new size of the window, and lay the widgets out anew
    /// if the size differs from the old one
    fn do_resize(&mut self, size: Size)
        requires
            old(self).wf(),
        ensures
            final(self).wf(),
            final(self).size == size,
            final(self).ev_mgr.sizes == old(self).ev_mgr.sizes,
            final(self).ev_mgr.timers@ == old(self).ev_mgr.timers@,
            if size == old(self).size {
                &&& final(self).widget@ == old(self).widget@
                &&& final(self).configured == old(self).configured
                &&& final(self).ev_mgr.action == old(self).ev_mgr.action
            } else {
                &&& Window::sized(
                    old(self).widget@,
                    old(self).ev_mgr.sizes,
                    size,
                ).placed_then_renumbered(
                    final(self).widget@,
                    size,
                    old(self).configured,
                    final(self).configured,
                )
                &&& final(self).ev_mgr.action == old(self).ev_mgr.action.join(
                    Window::laid_action(old(self).widget@, old(self).ev_mgr.sizes, size),
                ).join(Window::closing(final(self).configured))
            },
    {
        if size.0 == self.size.0 && size.1 == self.size.1 {
            return ;
        }
        self.size = size;
        proof {
            crate::placement::lemma_wf_shaped(self.widget@);
        }
        self.relayout();
    }

    /// Draw the window: collect the instructions of all widgets
    pub fn do_draw(&self) -> (r: DrawHandle)
        ensures
            r.cmds@ == self.widget@.drawing(&self.ev_mgr, false),
    {
        let mut draw_handle = DrawHandle::new();
        self.widget.draw(&mut draw_handle, &self.ev_mgr, false);
        proof {
            assert(draw_handle.cmds@ =~= self.widget@.drawing(&self.ev_mgr, false));
        }
        draw_handle
    }
}

} // verus!
