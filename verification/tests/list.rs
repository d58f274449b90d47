use floem_views::keyboard::{Key, NamedKey};
use floem_views::list::{handle_arrow_key, list_key_selection, EventPropagation, FlexDirection};

#[test]
fn list_home_end_and_arrows() {
    let k = |n| Key::Named(n);
    assert_eq!(list_key_selection(Some(2), 5, &k(NamedKey::Home)), (Some(0), EventPropagation::Stop));
    assert_eq!(list_key_selection(None, 5, &k(NamedKey::End)), (Some(4), EventPropagation::Stop));
    assert_eq!(list_key_selection(Some(0), 5, &k(NamedKey::ArrowUp)), (None, EventPropagation::Stop));
    assert_eq!(list_key_selection(None, 5, &k(NamedKey::ArrowUp)), (Some(4), EventPropagation::Stop));
    assert_eq!(list_key_selection(Some(4), 5, &k(NamedKey::ArrowDown)), (None, EventPropagation::Stop));
    assert_eq!(list_key_selection(Some(1), 5, &k(NamedKey::ArrowDown)), (Some(2), EventPropagation::Stop));
    assert_eq!(list_key_selection(None, 0, &k(NamedKey::Home)), (None, EventPropagation::Stop));
    assert_eq!(list_key_selection(Some(1), 5, &k(NamedKey::Tab)), (None, EventPropagation::Continue));
    assert_eq!(
        list_key_selection(Some(1), 5, &Key::Character("a".to_string())),
        (None, EventPropagation::Continue)
    );
}

#[test]
fn virtual_list_arrows_follow_direction() {
    assert_eq!(
        handle_arrow_key(Some(1), 3, FlexDirection::Row, NamedKey::ArrowRight),
        (Some(2), EventPropagation::Stop)
    );
    assert_eq!(
        handle_arrow_key(Some(1), 3, FlexDirection::RowReverse, NamedKey::ArrowRight),
        (Some(0), EventPropagation::Stop)
    );
    assert_eq!(
        handle_arrow_key(Some(1), 3, FlexDirection::Column, NamedKey::ArrowRight),
        (None, EventPropagation::Continue)
    );
    assert_eq!(
        handle_arrow_key(None, 3, FlexDirection::ColumnReverse, NamedKey::ArrowDown),
        (Some(2), EventPropagation::Stop)
    );
    assert_eq!(
        handle_arrow_key(None, 3, FlexDirection::Column, NamedKey::ArrowDown),
        (Some(0), EventPropagation::Stop)
    );
    assert_eq!(
        handle_arrow_key(Some(2), 3, FlexDirection::Column, NamedKey::ArrowDown),
        (None, EventPropagation::Stop)
    );
}
