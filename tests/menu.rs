use std::convert::TryFrom;

use enso::menu::Menu;

#[test]
fn test_it_works_with_filled_vec() {
    let mut menu = Menu::try_from(vec![1, 2, 3]).unwrap();
    assert_eq!(menu.selected_index(), 0);
    menu.select_next();
    assert_eq!(menu.selected_index(), 1);
    menu.select_prev();
    assert_eq!(menu.selected_index(), 0);
    menu.select_prev();
    assert_eq!(menu.selected_index(), 2);
    menu.select_next();
    assert_eq!(menu.selected_index(), 0);

    let mut menu_items: Vec<(i32, bool)> = vec![];

    for (value, is_selected) in menu.iter() {
        menu_items.push((*value, is_selected));
    }

    assert_eq!(menu_items, vec![(1, true), (2, false), (3, false),]);

    assert_eq!(menu.into_selected_entry(), Some(1));
}

#[test]
fn test_try_from_fails_with_empty_vec() {
    let menu = Menu::<usize>::try_from(vec![]);
    assert_eq!(menu.is_err(), true);
}

#[test]
fn menu_wraps_around_both_ways() {
    let mut menu = Menu::new(vec!['a', 'b', 'c']);
    menu.select_prev();
    assert_eq!(menu.selected_index(), 2);
    assert_eq!(menu.selected_entry(), Some(&'c'));
    menu.select_next();
    assert_eq!(menu.selected_index(), 0);
    assert_eq!(menu.selected_entry(), Some(&'a'));
}

#[test]
fn empty_menu_operations_do_nothing() {
    let mut menu: Menu<u8> = Menu::new(vec![]);
    menu.select_next();
    menu.select_prev();
    assert_eq!(menu.selected_index(), 0);
    assert_eq!(menu.selected_entry(), None);
    assert!(menu.iter().is_empty());
    assert_eq!(menu.into_selected_entry(), None);
}

#[test]
fn into_selected_entry_takes_the_entry_under_the_cursor() {
    let mut menu = Menu::new(vec![10, 20, 30]);
    menu.select_next();
    menu.select_next();
    assert_eq!(menu.into_selected_entry(), Some(30));
}
