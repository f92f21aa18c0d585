//! Keyboard navigation: moving the focus from widget to widget

use crate::data::WidgetId;
use crate::model::WidgetModel;
use crate::traits::{model_of, WidgetChildren, WidgetConfig, WidgetCore};
use crate::widget::any::{models, AnyWidget};
use crate::widget::configure::{lemma_span, lemma_span_monotonic, span};
use vstd::prelude::*;

verus! {

/// Whether the focus can go to the widget `id` of the tree: input can
/// reach it, and it takes keyboard navigation focus.
pub open spec fn focusable(root: WidgetModel, id: WidgetId) -> bool {
    exists|k: int|
        0 <= k < root.shown().len() && (#[trigger] root.shown()[k]).core.id == id
            && root.shown()[k].navigable()
}

/// Position, among the widgets of a tree of `count` widgets, of the `k`-th
/// place to which the focus may go from the position `from`: `k` steps on,
/// or back if `reverse` is set, continuing at the other end of the tree
/// where the tree ends. Without a position to start from, the first step
/// leads to the first widget, or to the last if `reverse` is set.
pub open spec fn nav_step(count: int, from: Option<int>, k: int, reverse: bool) -> int {
    let origin = match from {
        Some(p) => p,
        None => if reverse {
            0
        } else {
            count - 1
        },
    };
    if reverse {
        (origin - k) % count
    } else {
        (origin + k) % count
    }
}

/// Position of the widget `id` among the widgets of a configured tree, if
/// the tree has such a widget.
pub open spec fn position(root: WidgetModel, id: Option<WidgetId>) -> Option<int> {
    match id {
        Some(id) => if root.core.id.0 <= id.0 < root.core.id.0 + root.count() {
            Some(id.0 - root.core.id.0)
        } else {
            None
        },
        None => None,
    }
}

/// Whether `next` is where the focus goes from `focus`: to the nearest
/// widget, in the direction asked for, that can take it; that may be the
/// widget that has it. Where no widget can take the focus, it goes nowhere.
pub open spec fn nav_target(
    root: WidgetModel,
    focus: Option<WidgetId>,
    reverse: bool,
    next: Option<WidgetId>,
) -> bool {
    let count = root.count() as int;
    let from = position(root, focus);
    match next {
        Some(id) => exists|k: int|
            {
                &&& 1 <= k <= count
                &&& id.0 == root.core.id.0 + #[trigger] nav_step(count, from, k, reverse)
                &&& focusable(root, id)
                &&& forall|j: int|
                    1 <= j < k ==> !focusable(
                        root,
                        WidgetId((root.core.id.0 + #[trigger] nav_step(count, from, j, reverse)) as u64),
                    )
            },
        None => forall|j: int|
            1 <= j <= count ==> !focusable(
                root,
                WidgetId((root.core.id.0 + #[trigger] nav_step(count, from, j, reverse)) as u64),
            ),
    }
}

/// Number of widgets in the trees `widgets`
pub fn count_all(widgets: &Vec<AnyWidget>) -> (n: u64)
    requires
        span(models(widgets@), widgets@.len() as nat) <= u64::MAX,
    ensures
        n == span(models(widgets@), widgets@.len() as nat),
    decreases widgets, 0nat,
{
    let mut n: u64 = 0;
    let mut i: usize = 0;
    let ghost ws = models(widgets@);
    while i < widgets.len()
        invariant
            i <= widgets@.len(),
            ws == models(widgets@),
            span(ws, widgets@.len() as nat) <= u64::MAX,
            n == span(ws, i as nat),
        decreases widgets@.len() - i,
    {
        proof {
            lemma_span_monotonic(ws, (i + 1) as nat, widgets@.len() as nat);
        }
        n = n + widgets[i].count();
        i += 1;
    }
    n
}

impl AnyWidget {
    /// Number of widgets in the tree
    pub fn count(&self) -> (n: u64)
        requires
            self@.count() <= u64::MAX,
        ensures
            n == self@.count(),
        decreases self, 1nat,
    {
        proof {
            lemma_span(self@, self@.children.len());
            assert(self@.nodes().len() == 1 + self@.nodes_below(self@.children.len()).len());
        }
        match self {
            AnyWidget::Label(_) => 1,
            AnyWidget::Frame(w) => {
                proof {
                    assert(self@.children[0] == (*w.inner)@);
                    assert(self@.nodes_below(0).len() == 0);
                    assert(span(self@.children, 1) == self@.children[0].count());
                }
                1 + w.inner.count()
            },
            AnyWidget::Stack(w) => {
                proof {
                    assert(models(w.widgets@) =~= self@.children);
                }
                1 + count_all(&w.widgets)
            },
            AnyWidget::Row(w) => {
                proof {
                    assert(models(w.widgets@) =~= self@.children);
                }
                1 + count_all(&w.widgets)
            },
            AnyWidget::List(w) => {
                proof {
                    assert(models(w.widgets@) =~= self@.children);
                }
                1 + count_all(&w.widgets)
            },
        }
    }

    /// Whether the focus can go to the widget `id` of this tree
    pub fn can_focus(&self, id: WidgetId) -> (r: bool)
        requires
            self@.configured(),
        ensures
            r == focusable(self@, id),
    {
        match self.find(id) {
            Some(w) => {
                let r = w.key_nav();
                proof {
                    let found = w@;
                    let k = choose|k: int|
                        0 <= k < self@.shown().len() && #[trigger] self@.shown()[k] == found;
                    if focusable(self@, id) {
                        let j = choose|j: int|
                            0 <= j < self@.shown().len() && (#[trigger] self@.shown()[j]).core.id
                                == id && self@.shown()[j].navigable();
                        let a = crate::model::lemma_shown_is_node(self@, k);
                        let b = crate::model::lemma_shown_is_node(self@, j);
                        crate::model::lemma_ids_distinct(self@, a, b);
                    }
                    if r {
                        assert(self@.shown()[k].core.id == id && self@.shown()[k].navigable());
                    }
                }
                r
            },
            None => false,
        }
    }

    /// Where the focus goes from `focus`: to the next widget that takes
    /// keyboard navigation focus, or to the one before if `reverse` is
    /// set
    ///
    /// The search goes through the widgets in the order of their
    /// identifiers and continues at the other end of the tree when it
    /// comes to an end. Disabled widgets and those below them are passed
    /// over. Returns `None` where no widget takes the focus.
    pub fn next_nav_focus(&self, focus: Option<WidgetId>, reverse: bool) -> (r: Option<WidgetId>)
        requires
            self@.configured(),
            self@.core.id.0 + self@.count() <= u64::MAX,
        ensures
            nav_target(self@, focus, reverse, r),
    {
        let base = self.id().0;
        let count = self.count();
        proof {
            assert(self@.nodes()[0] == self@);
        }
        let from: Option<u64> = match focus {
            Some(id) => if base <= id.0 && id.0 - base < count {
                Some(id.0 - base)
            } else {
                None
            },
            None => None,
        };
        let origin: u64 = match from {
            Some(p) => p,
            None => if reverse {
                0
            } else {
                count - 1
            },
        };
        let mut k: u64 = 1;
        let mut at: u64 = origin;
        let ghost spec_from: Option<int> = position(self@, focus);
        proof {
            vstd::arithmetic::div_mod::lemma_small_mod(origin as nat, count as nat);
        }
        while k <= count
            invariant
                1 <= k <= count + 1,
                count == self@.count(),
                count >= 1,
                base == self@.core.id.0,
                base + count <= u64::MAX,
                self@.configured(),
                0 <= at < count,
                0 <= origin < count,
                spec_from == position(self@, focus),
                origin as int == match spec_from {
                    Some(p) => p,
                    None => if reverse {
                        0
                    } else {
                        count - 1
                    },
                },
                at as int == if reverse {
                    (origin - (k - 1)) % (count as int)
                } else {
                    (origin + (k - 1)) % (count as int)
                },
                forall|j: int|
                    1 <= j < k ==> !focusable(
                        self@,
                        WidgetId(
                            (base + #[trigger] nav_step(count as int, spec_from, j, reverse)) as u64,
                        ),
                    ),
            decreases count + 1 - k,
        {
            let prev = at;
            at = if reverse {
                if at == 0 {
                    count - 1
                } else {
                    at - 1
                }
            } else {
                if at == count - 1 {
                    0
                } else {
                    at + 1
                }
            };
            proof {
                let c = count as int;
                if reverse {
                    lemma_step_back(origin as int, k as int, c);
                } else {
                    lemma_step_on(origin as int, k as int, c);
                }
                assert(at as int == nav_step(c, spec_from, k as int, reverse));
            }
            let id = WidgetId(base + at);
            if self.can_focus(id) {
                return Some(id);
            }
            if k == count {
                return None;
            }
            k += 1;
        }
        None
    }
}

/// One step on from the remainder of `a + k - 1` is the remainder of
/// `a + k`.
pub proof fn lemma_step_on(a: int, k: int, c: int)
    requires
        c >= 1,
    ensures
        (a + k) % c == if (a + (k - 1)) % c == c - 1 {
            0
        } else {
            (a + (k - 1)) % c + 1
        },
{
    let x = a + (k - 1);
    vstd::arithmetic::div_mod::lemma_fundamental_div_mod(x, c);
    vstd::arithmetic::div_mod::lemma_mod_bound(x, c);
    let q = x / c;
    let r = x % c;
    if r == c - 1 {
        assert(x + 1 == (q + 1) * c + 0) by (nonlinear_arith)
            requires
                x == c * q + r,
                r == c - 1,
        ;
        vstd::arithmetic::div_mod::lemma_fundamental_div_mod_converse(x + 1, c, q + 1, 0);
    } else {
        assert(x + 1 == q * c + (r + 1)) by (nonlinear_arith)
            requires
                x == c * q + r,
        ;
        vstd::arithmetic::div_mod::lemma_fundamental_div_mod_converse(x + 1, c, q, r + 1);
    }
}

/// One step back from the remainder of `a - (k - 1)` is the remainder of
/// `a - k`.
pub proof fn lemma_step_back(a: int, k: int, c: int)
    requires
        c >= 1,
    ensures
        (a - k) % c == if (a - (k - 1)) % c == 0 {
            c - 1
        } else {
            (a - (k - 1)) % c - 1
        },
{
    let x = a - (k - 1);
    vstd::arithmetic::div_mod::lemma_fundamental_div_mod(x, c);
    vstd::arithmetic::div_mod::lemma_mod_bound(x, c);
    let q = x / c;
    let r = x % c;
    if r == 0 {
        assert(x - 1 == (q - 1) * c + (c - 1)) by (nonlinear_arith)
            requires
                x == c * q + r,
                r == 0,
        ;
        vstd::arithmetic::div_mod::lemma_fundamental_div_mod_converse(x - 1, c, q - 1, c - 1);
    } else {
        assert(x - 1 == q * c + (r - 1)) by (nonlinear_arith)
            requires
                x == c * q + r,
        ;
        vstd::arithmetic::div_mod::lemma_fundamental_div_mod_converse(x - 1, c, q, r - 1);
    }
}

} // verus!
