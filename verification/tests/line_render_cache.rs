use floem_views::line_render_cache::{InvalLines, LineRenderCache};

#[test]
fn line_render_cache() {
    let mut c = LineRenderCache::new();

    assert_eq!(c.base_line(), 0);
    assert!(c.is_empty());

    c.insert(0, 0);
    assert_eq!(c.base_line(), 0);
    assert_eq!(c.len(), 1);

    c.insert(1, 1);
    assert_eq!(c.base_line(), 0);
    assert_eq!(c.len(), 2);

    c.insert(10, 2);
    assert_eq!(c.base_line(), 0);
    assert_eq!(c.len(), 11);

    let mut c = LineRenderCache::new();
    c.insert(10, 10);
    assert_eq!(c.base_line(), 10);
    assert_eq!(c.len(), 1);

    c.insert(8, 8);
    assert_eq!(c.base_line(), 8);
    assert_eq!(c.len(), 3);

    c.insert(5, 5);
    assert_eq!(c.base_line(), 5);
    assert_eq!(c.len(), 6);

    assert!(c.get(0).is_none());
    assert!(c.get(5).is_some());
    assert!(c.get(8).is_some());
    assert!(c.get(10).is_some());
    assert!(c.get(11).is_none());

    let mut c2 = c.clone();
    c2.invalidate(InvalLines::new(0, 1, 1));
    assert!(c2.get(0).is_none());
    assert!(c2.get(5).is_some());
    assert!(c2.get(8).is_some());
    assert!(c2.get(10).is_some());
    assert!(c2.get(11).is_none());

    let mut c2 = c.clone();
    c2.invalidate(InvalLines::new(5, 1, 1));
    assert!(c2.get(0).is_none());
    assert!(c2.get(5).is_none());
    assert!(c2.get(8).is_some());
    assert!(c2.get(10).is_some());
    assert!(c2.get(11).is_none());

    c.invalidate(InvalLines::new(0, 6, 6));
    assert!(c.get(5).is_none());
    assert!(c.get(8).is_some());
    assert!(c.get(10).is_some());
    assert!(c.get(11).is_none());

    let mut c = LineRenderCache::new();
    for i in 0..10 {
        c.insert(i, i);
    }

    assert_eq!(c.base_line(), 0);
    assert_eq!(c.len(), 10);

    c.invalidate(InvalLines::new(0, 10, 1));
    assert!(c.get(0).is_none());
    assert_eq!(c.len(), 1);

    let mut c = LineRenderCache::new();
    for i in 0..10 {
        c.insert(i, i);
    }

    c.invalidate(InvalLines::new(5, 800, 1));
    assert!(c.get(0).is_some());
    assert!(c.get(1).is_some());
    assert!(c.get(2).is_some());
    assert!(c.get(3).is_some());
    assert!(c.get(4).is_some());
    assert_eq!(c.len(), 6);

    let mut c = LineRenderCache::new();
    for i in 5..10 {
        c.insert(i, i);
    }

    assert_eq!(c.base_line(), 5);

    c.invalidate(InvalLines::new(0, 7, 1));
    assert_eq!(c.base_line(), 0);
    assert!(c.get(0).is_some()); // was line 7
    assert!(c.get(1).is_some()); // was line 8
    assert!(c.get(2).is_some()); // was line 9
    assert!(c.get(3).is_none());
    assert!(c.get(4).is_none());
    assert_eq!(c.len(), 3);

    let mut c = LineRenderCache::new();
    for i in 0..10 {
        c.insert(i, i);
    }

    c.invalidate(InvalLines::new(0, 800, 1));
    assert!(c.get(0).is_none());
    assert_eq!(c.len(), 1);
}

#[test]
fn insert_then_get_returns_entry_and_keeps_others() {
    let mut c = LineRenderCache::new();
    c.insert(3, "three");
    c.insert(7, "seven");
    c.insert(1, "one");
    assert_eq!(c.get(3), Some(&"three"));
    assert_eq!(c.get(7), Some(&"seven"));
    assert_eq!(c.get(1), Some(&"one"));
    assert_eq!(c.get(2), None);
    assert_eq!(c.min_line(), 1);
    assert_eq!(c.max_line(), Some(7));
    c.insert(3, "THREE");
    assert_eq!(c.get(3), Some(&"THREE"));
    assert_eq!(c.len(), 7);
}

#[test]
fn clear_empties_the_cache() {
    let mut c = LineRenderCache::new();
    c.insert(4, 4u32);
    c.clear();
    assert!(c.is_empty());
    assert_eq!(c.base_line(), 0);
    assert_eq!(c.max_line(), None);
    assert_eq!(c.get(4), None);
}

#[test]
fn invalidate_growing_inserts_empty_slots() {
    let mut c = LineRenderCache::new();
    for i in 0..4 {
        c.insert(i, i);
    }
    c.invalidate(InvalLines::new(1, 1, 3));
    assert_eq!(c.len(), 6);
    assert_eq!(c.get(0), Some(&0));
    assert_eq!(c.get(1), None);
    assert_eq!(c.get(2), None);
    assert_eq!(c.get(3), None);
    assert_eq!(c.get(4), Some(&2));
    assert_eq!(c.get(5), Some(&3));
    let slots = c.iter();
    assert_eq!(slots.len(), 6);
    assert_eq!(slots[0], Some(&0));
    assert_eq!(slots[1], None);
}

#[test]
fn invalidate_past_the_end_changes_nothing() {
    let mut c = LineRenderCache::new();
    c.insert(2, 'a');
    c.invalidate(InvalLines::new(9, 2, 0));
    assert_eq!(c.base_line(), 2);
    assert_eq!(c.get(2), Some(&'a'));
}

#[test]
fn get_mut_changes_only_that_entry() {
    let mut c = LineRenderCache::new();
    c.insert(2, 20u32);
    c.insert(4, 40u32);
    if let Some(x) = c.get_mut(2) {
        *x = 21;
    }
    assert!(c.get_mut(3).is_none());
    assert!(c.get_mut(9).is_none());
    assert_eq!(c.get(2), Some(&21));
    assert_eq!(c.get(4), Some(&40));
}

#[test]
fn iter_with_line_numbers_slots_from_the_base() {
    let mut c = LineRenderCache::new();
    c.insert(5, 'x');
    c.insert(7, 'z');
    let slots = c.iter_with_line();
    assert_eq!(slots, vec![(5, Some(&'x')), (6, None), (7, Some(&'z'))]);
}

#[test]
fn default_cache_is_empty() {
    let c: LineRenderCache<u8> = Default::default();
    assert!(c.is_empty());
    assert_eq!(c.base_line(), 0);
}

#[test]
fn invalidate_removing_lines_moves_later_entries_up() {
    let mut c = LineRenderCache::new();
    for i in 0..5u32 {
        c.insert(i as usize, i);
    }
    c.invalidate(InvalLines::new(1, 2, 1));
    assert_eq!(c.get(0), Some(&0));
    assert_eq!(c.get(1), None);
    assert_eq!(c.get(2), Some(&3));
    assert_eq!(c.get(3), Some(&4));
    assert_eq!(c.get(4), None);
}
