//! Configuring a widget tree: numbering its widgets and letting them
//! register with the event manager

use crate::data::WidgetId;
use crate::event::Manager;
use crate::model::{
    lemma_child_nodes, lemma_renumbered_configured, Registrations, WidgetModel,
};
use crate::traits::{registrations, WidgetConfig, WidgetCore};
use crate::widget::any::{models, AnyWidget};
use vstd::prelude::*;

verus! {

/// Number of widgets in the trees of the first `n` of the widgets `ws`.
pub open spec fn span(ws: Seq<WidgetModel>, n: nat) -> nat
    decreases n,
{
    if n == 0 || n > ws.len() {
        0
    } else {
        span(ws, (n - 1) as nat) + ws[n - 1].count()
    }
}

/// What the widgets of the trees of the first `n` of `ws` register when
/// they are configured.
pub open spec fn registered_upto(ws: Seq<WidgetModel>, n: nat, regs: Registrations) -> Registrations
    decreases n,
{
    if n == 0 || n > ws.len() {
        regs
    } else {
        ws[n - 1].registered_all(registered_upto(ws, (n - 1) as nat, regs))
    }
}

/// The widgets below the first `n` children are those of the trees of
/// these children.
pub proof fn lemma_span(w: WidgetModel, n: nat)
    requires
        n <= w.children.len(),
    ensures
        w.nodes_below(n).len() == span(w.children, n),
        w.child_start(n) == 1 + span(w.children, n),
    decreases n,
{
    if n > 0 {
        lemma_span(w, (n - 1) as nat);
    }
}

/// What the widgets below the first `n` children register is what the
/// trees of these children register.
pub proof fn lemma_registered_upto(w: WidgetModel, n: nat, regs: Registrations)
    requires
        n <= w.children.len(),
    ensures
        w.registered_below(n, regs) == registered_upto(w.children, n, regs),
    decreases n,
{
    if n > 0 {
        lemma_registered_upto(w, (n - 1) as nat, regs);
    }
}

/// Number the widgets of the trees `widgets` consecutively from `start`
///
/// Returns the first number that was not given.
pub fn assign_ids_all(widgets: &mut Vec<AnyWidget>, start: u64) -> (next: u64)
    requires
        start + span(models(old(widgets)@), old(widgets)@.len() as nat) <= u64::MAX,
    ensures
        final(widgets)@.len() == old(widgets)@.len(),
        forall|j: int|
            0 <= j < old(widgets)@.len() ==> (#[trigger] final(widgets)@[j])@ == old(
                widgets,
            )@[j]@.renumbered(start + span(models(old(widgets)@), j as nat)),
        next == start + span(models(old(widgets)@), old(widgets)@.len() as nat),
    decreases *old(widgets), 0nat,
{
    let n = widgets.len();
    let mut next = start;
    let mut i: usize = 0;
    let ghost ws = models(widgets@);
    while i < n
        invariant
            i <= n,
            n == old(widgets)@.len(),
            widgets@.len() == n,
            ws == models(old(widgets)@),
            start + span(ws, n as nat) <= u64::MAX,
            next == start + span(ws, i as nat),
            forall|j: int|
                0 <= j < i ==> (#[trigger] widgets@[j])@ == old(widgets)@[j]@.renumbered(
                    start + span(ws, j as nat),
                ),
            forall|j: int| i <= j < n ==> #[trigger] widgets@[j] == old(widgets)@[j],
        decreases n - i,
    {
        proof {
            lemma_span_monotonic(ws, (i + 1) as nat, n as nat);
            assert(ws[i as int] == old(widgets)@[i as int]@);
        }
        next = widgets[i].assign_ids(next);
        i += 1;
    }
    next
}

/// The number of widgets in the trees of the first `n` widgets grows with
/// `n`.
pub proof fn lemma_span_monotonic(ws: Seq<WidgetModel>, n: nat, m: nat)
    requires
        n <= m <= ws.len(),
    ensures
        span(ws, n) <= span(ws, m),
    decreases m,
{
    if n < m {
        lemma_span_monotonic(ws, n, (m - 1) as nat);
    }
}

/// Let the widgets of the trees `widgets` register with the event manager
pub fn configure_each(widgets: &mut Vec<AnyWidget>, mgr: &mut Manager)
    ensures
        final(widgets)@.len() == old(widgets)@.len(),
        forall|j: int|
            0 <= j < old(widgets)@.len() ==> (#[trigger] final(widgets)@[j])@ == old(widgets)@[j]@,
        registrations(final(mgr)) == registered_upto(
            models(old(widgets)@),
            old(widgets)@.len() as nat,
            registrations(old(mgr)),
        ),
        final(mgr).same_but_registrations(old(mgr)),
    decreases *old(widgets), 0nat,
{
    let n = widgets.len();
    let mut i: usize = 0;
    let ghost ws = models(widgets@);
    while i < n
        invariant
            i <= n,
            n == old(widgets)@.len(),
            widgets@.len() == n,
            ws == models(old(widgets)@),
            registrations(mgr) == registered_upto(ws, i as nat, registrations(old(mgr))),
            mgr.same_but_registrations(old(mgr)),
            forall|j: int| 0 <= j < i ==> (#[trigger] widgets@[j])@ == old(widgets)@[j]@,
            forall|j: int| i <= j < n ==> #[trigger] widgets@[j] == old(widgets)@[j],
        decreases n - i,
    {
        proof {
            assert(ws[i as int] == old(widgets)@[i as int]@);
        }
        widgets[i].configure_all(mgr);
        i += 1;
    }
}

/// Number of widgets in the trees `widgets`, if not greater than `limit`
pub fn count_each_within(widgets: &Vec<AnyWidget>, limit: u64) -> (r: Option<u64>)
    ensures
        match r {
            Some(n) => n == span(models(widgets@), widgets@.len() as nat) && n <= limit,
            None => span(models(widgets@), widgets@.len() as nat) > limit,
        },
    decreases widgets, 0nat,
{
    let mut n: u64 = 0;
    let mut i: usize = 0;
    let ghost ws = models(widgets@);
    while i < widgets.len()
        invariant
            i <= widgets@.len(),
            ws == models(widgets@),
            n == span(ws, i as nat),
            n <= limit,
        decreases widgets@.len() - i,
    {
        proof {
            lemma_span_monotonic(ws, (i + 1) as nat, widgets@.len() as nat);
        }
        match widgets[i].count_within(limit - n) {
            Some(c) => {
                n = n + c;
            },
            None => {
                return None;
            },
        }
        i += 1;
    }
    Some(n)
}

impl AnyWidget {
    /// Number of widgets in the tree, if not greater than `limit`
    pub fn count_within(&self, limit: u64) -> (r: Option<u64>)
        ensures
            match r {
                Some(n) => n == self@.count() && n <= limit,
                None => self@.count() > limit,
            },
        decreases self, 1nat,
    {
        proof {
            lemma_span(self@, self@.children.len());
            assert(self@.nodes().len() == 1 + self@.nodes_below(self@.children.len()).len());
        }
        if limit == 0 {
            return None;
        }
        let below = match self {
            AnyWidget::Label(_) => Some(0),
            AnyWidget::Frame(w) => {
                proof {
                    assert(self@.children[0] == (*w.inner)@);
                    assert(self@.nodes_below(0).len() == 0);
                    assert(span(self@.children, 1) == self@.children[0].count());
                }
                w.inner.count_within(limit - 1)
            },
            AnyWidget::Stack(w) => {
                proof {
                    assert(models(w.widgets@) =~= self@.children);
                }
                count_each_within(&w.widgets, limit - 1)
            },
            AnyWidget::Row(w) => {
                proof {
                    assert(models(w.widgets@) =~= self@.children);
                }
                count_each_within(&w.widgets, limit - 1)
            },
            AnyWidget::List(w) => {
                proof {
                    assert(models(w.widgets@) =~= self@.children);
                }
                count_each_within(&w.widgets, limit - 1)
            },
        };
        match below {
            Some(n) => Some(n + 1),
            None => None,
        }
    }

    /// Number the widgets of the tree consecutively from `start`, each
    /// widget before its children, children in order
    ///
    /// Returns the first number that was not given. Afterwards the tree
    /// is configured: the identifier of a widget is not greater than that
    /// of any widget below it, and the identifiers of the widgets below
    /// one child are less than those below the next.
    pub fn assign_ids(&mut self, start: u64) -> (next: u64)
        requires
            start + old(self)@.count() <= u64::MAX,
        ensures
            final(self)@ == old(self)@.renumbered(start as int),
            final(self)@.configured(),
            final(self)@.core.id == WidgetId(start),
            next == start + old(self)@.count(),
        decreases *old(self), 1nat,
    {
        proof {
            lemma_renumbered_configured(self@, start as int);
            lemma_span(self@, self@.children.len());
            assert(self@.nodes().len() == 1 + self@.nodes_below(self@.children.len()).len());
        }
        let next = match self {
            AnyWidget::Label(w) => {
                w.core.id = WidgetId(start);
                start + 1
            },
            AnyWidget::Frame(w) => {
                w.core.id = WidgetId(start);
                proof {
                    assert(old(self)@.children[0] == (*w.inner)@);
                    assert(old(self)@.nodes_below(0).len() == 0);
                    assert(span(old(self)@.children, 1) == old(self)@.children[0].count());
                }
                w.inner.assign_ids(start + 1)
            },
            AnyWidget::Stack(w) => {
                w.core.id = WidgetId(start);
                proof {
                    assert(models(w.widgets@) =~= old(self)@.children);
                }
                assign_ids_all(&mut w.widgets, start + 1)
            },
            AnyWidget::Row(w) => {
                w.core.id = WidgetId(start);
                proof {
                    assert(models(w.widgets@) =~= old(self)@.children);
                }
                assign_ids_all(&mut w.widgets, start + 1)
            },
            AnyWidget::List(w) => {
                w.core.id = WidgetId(start);
                proof {
                    assert(models(w.widgets@) =~= old(self)@.children);
                }
                assign_ids_all(&mut w.widgets, start + 1)
            },
        };
        proof {
            let pre = old(self)@;
            let want = pre.renumbered(start as int);
            assert(self@.children.len() == pre.children.len());
            assert forall|j: int| 0 <= j < pre.children.len() implies (#[trigger] self@.children[j])
                == want.children[j] by {
                lemma_span(pre, j as nat);
            }
            assert(self@.children =~= want.children);
        }
        next
    }

    /// Let the widgets of the tree register with the event manager, each
    /// after its children
    pub fn configure_all(&mut self, mgr: &mut Manager)
        ensures
            final(self)@ == old(self)@,
            registrations(final(mgr)) == old(self)@.registered_all(registrations(old(mgr))),
            final(mgr).same_but_registrations(old(mgr)),
        decreases *old(self), 1nat,
    {
        proof {
            lemma_registered_upto(self@, self@.children.len(), registrations(mgr));
        }
        match self {
            AnyWidget::Label(_) => {},
            AnyWidget::Frame(w) => {
                proof {
                    assert(old(self)@.children[0] == (*w.inner)@);
                    assert(old(self)@.registered_below(0, registrations(mgr)) == registrations(mgr));
                }
                w.inner.configure_all(mgr);
            },
            AnyWidget::Stack(w) => {
                proof {
                    assert(models(w.widgets@) =~= old(self)@.children);
                }
                configure_each(&mut w.widgets, mgr);
            },
            AnyWidget::Row(w) => {
                proof {
                    assert(models(w.widgets@) =~= old(self)@.children);
                }
                configure_each(&mut w.widgets, mgr);
            },
            AnyWidget::List(w) => {
                proof {
                    assert(models(w.widgets@) =~= old(self)@.children);
                }
                configure_each(&mut w.widgets, mgr);
            },
        }
        proof {
            assert(self@.children =~= old(self)@.children);
        }
        self.configure(mgr);
    }
}

} // verus!
