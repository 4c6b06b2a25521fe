use editor::event::{Key, Modifiers, MouseButton, MouseState};
use editor::layout::{build_layout_tree, layout_elements_valid};
use editor::shortcuts::toggles_file_searcher;
use editor::ui_event_system::typed_character;

#[test]
fn layout_tree_is_built_level_by_level() {
    let elements = vec![(5, None), (3, Some(5)), (1, None), (4, Some(3)), (2, Some(5))];
    let tree = build_layout_tree(&elements);
    assert_eq!(tree.order, vec![2, 0, 4, 1, 3]);
    assert_eq!(tree.root_indices, vec![0, 1]);
    assert_eq!(tree.children, vec![vec![], vec![2, 3], vec![], vec![4], vec![]]);
}

#[test]
fn layout_tree_of_nothing() {
    let tree = build_layout_tree(&vec![]);
    assert!(tree.order.is_empty());
    assert!(tree.root_indices.is_empty());
    assert!(tree.children.is_empty());
}

#[test]
fn mouse_buttons_are_tracked() {
    let mut state = MouseState::default();
    state.press(&MouseButton::Left);
    state.press(&MouseButton::Middle);
    assert_eq!(state.bits, 5);
    assert!(state.holds(&MouseButton::Left));
    assert!(!state.holds(&MouseButton::Right));
    state.release(&MouseButton::Left);
    assert_eq!(state.bits, 4);
    state.press(&MouseButton::Other(9));
    assert_eq!(state.bits, 4);
    assert!(!state.holds(&MouseButton::Other(9)));
}

#[test]
fn text_boxes_and_shortcuts() {
    let none = Modifiers { shift: false, ctrl: false, alt: false, logo: false };
    let shift = Modifiers { shift: true, ..none };
    let logo = Modifiers { logo: true, ..none };
    assert_eq!(typed_character(&Key::char('a'), shift), Some('A'));
    assert_eq!(typed_character(&Key::char(' '), shift), Some(' '));
    assert_eq!(typed_character(&Key::char('a'), none), Some('a'));
    assert_eq!(typed_character(&Key::Return, none), None);
    assert!(toggles_file_searcher(&Key::char('p'), logo));
    assert!(!toggles_file_searcher(&Key::char('p'), none));
    assert!(!toggles_file_searcher(&Key::char('q'), logo));
}

#[test]
fn layout_elements_are_checked() {
    assert!(layout_elements_valid(&vec![(1, None), (2, Some(1))]));
    assert!(!layout_elements_valid(&vec![(1, None), (1, Some(1))]));
    assert!(!layout_elements_valid(&vec![(1, None), (2, Some(9))]));
    assert!(!layout_elements_valid(&vec![(1, Some(2)), (2, Some(1))]));
    assert!(layout_elements_valid(&vec![]));
}
