use kas::widget::{AnyWidget, Label, Stack};
use kas::{TkAction, WidgetCore, WidgetId};

fn label(text: &str) -> AnyWidget {
    AnyWidget::Label(Label::new(text.to_string()))
}

fn text_of(w: &AnyWidget) -> String {
    match w {
        AnyWidget::Label(l) => l.get_str().to_string(),
        _ => panic!("a label was expected"),
    }
}

fn texts(stack: &Stack) -> Vec<String> {
    stack.widgets.iter().map(text_of).collect()
}

#[test]
fn new_stack_keeps_widgets_and_active_index() {
    let stack = Stack::new(vec![label("a"), label("b")], 1);
    assert_eq!(stack.len(), 2);
    assert!(!stack.is_empty());
    assert_eq!(stack.active_index(), 1);
    assert_eq!(text_of(stack.active().unwrap()), "b");
    assert_eq!(text_of(stack.get(0).unwrap()), "a");
    assert!(stack.get(2).is_none());
    assert!(stack.capacity() >= 2);
    let none = Stack::new(vec![label("a")], 3);
    assert!(none.active().is_none());
}

#[test]
fn set_active_moves_the_region() {
    let mut stack = Stack::new(vec![label("a"), label("b")], 0);
    assert_eq!(stack.set_active(1), TkAction::RegionMoved);
    assert_eq!(text_of(stack.active().unwrap()), "b");
    stack.active_mut().unwrap().set_disabled(true);
    assert!(stack.get(1).unwrap().is_disabled());
    assert_eq!(stack.set_active(7), TkAction::RegionMoved);
    assert!(stack.active_mut().is_none());
    stack.get_mut(0).unwrap().core_data_mut().id = WidgetId(4);
    assert_eq!(stack.get(0).unwrap().id(), WidgetId(4));
    assert!(stack.get_mut(5).is_none());
}

#[test]
fn push_pop_insert_remove_replace() {
    let mut stack = Stack::new(Vec::new(), 0);
    assert!(stack.is_empty());
    assert_eq!(stack.pop().1, TkAction::Empty);
    assert_eq!(stack.push(label("a")), TkAction::Reconfigure);
    assert_eq!(stack.push(label("c")), TkAction::Reconfigure);
    assert_eq!(stack.insert(1, label("b")), TkAction::Reconfigure);
    assert_eq!(stack.insert(3, label("d")), TkAction::Reconfigure);
    assert_eq!(texts(&stack), vec!["a", "b", "c", "d"]);
    let (removed, action) = stack.remove(1);
    assert_eq!(text_of(&removed), "b");
    assert_eq!(action, TkAction::Reconfigure);
    let (old, action) = stack.replace(0, label("z"));
    assert_eq!(text_of(&old), "a");
    assert_eq!(action, TkAction::Reconfigure);
    assert_eq!(texts(&stack), vec!["z", "c", "d"]);
    let (last, action) = stack.pop();
    assert_eq!(text_of(&last.unwrap()), "d");
    assert_eq!(action, TkAction::Reconfigure);
    stack.reserve(10);
    assert!(stack.capacity() >= 12);
    assert_eq!(stack.clear(), TkAction::Reconfigure);
    assert_eq!(stack.clear(), TkAction::Empty);
    assert!(stack.is_empty());
}

#[test]
fn extend_and_resize_with() {
    let mut stack = Stack::new(vec![label("a")], 0);
    assert_eq!(stack.extend(Vec::new()), TkAction::Empty);
    assert_eq!(stack.extend(vec![label("b"), label("c")]), TkAction::Reconfigure);
    assert_eq!(texts(&stack), vec!["a", "b", "c"]);
    assert_eq!(stack.resize_with(3, |i| label(&format!("n{}", i))), TkAction::Empty);
    assert_eq!(stack.resize_with(5, |i| label(&format!("n{}", i))), TkAction::Reconfigure);
    assert_eq!(texts(&stack), vec!["a", "b", "c", "n3", "n4"]);
    assert_eq!(stack.resize_with(2, |i| label(&format!("n{}", i))), TkAction::Reconfigure);
    assert_eq!(texts(&stack), vec!["a", "b"]);
}

#[test]
fn retain_keeps_what_the_predicate_accepts() {
    let names = ["a", "bb", "c", "dd", "ee", "f"];
    let mut stack = Stack::new(names.iter().map(|n| label(n)).collect(), 0);
    assert_eq!(stack.retain(|w| text_of(w).len() == 2), TkAction::Reconfigure);
    assert_eq!(texts(&stack), vec!["bb", "dd", "ee"]);
    assert_eq!(stack.retain(|_| true), TkAction::Empty);
    assert_eq!(texts(&stack), vec!["bb", "dd", "ee"]);
    assert_eq!(stack.retain(|_| false), TkAction::Reconfigure);
    assert!(stack.is_empty());
}
