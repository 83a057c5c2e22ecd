use attach_rs::attachment::AttachmentSet;

fn sorted_names(store: &AttachmentSet) -> Vec<String> {
    let mut names = Vec::new();
    let mut walk = store.iter();
    while let Some(item) = walk.next() {
        names.push(item.name().to_string());
    }
    names.sort();
    names
}

#[test]
fn a_walk_over_an_empty_store_ends_at_once() {
    let mut store = AttachmentSet::new();
    let mut walk = store.iter();
    assert!(walk.next().is_none());
    assert!(walk.next().is_none());
    let mut walk = store.iter_mut();
    assert!(walk.next().is_none());
    assert!(walk.next().is_none());
}

#[test]
fn a_walk_meets_every_name_once() {
    let mut store = AttachmentSet::new();
    store.set("c".to_string(), 3i32);
    store.set("a".to_string(), 1i32);
    store.set("b".to_string(), "two".to_string());
    store.set("a".to_string(), 10u8);
    store.set("d".to_string(), 4i32);
    assert!(store.remove("c"));

    assert_eq!(sorted_names(&store), vec!["a", "b", "d"]);
    assert_eq!(store.len(), 3);
    for name in ["a", "b", "d"] {
        assert!(store.contains(name));
    }
    assert!(!store.contains("c"));
}

#[test]
fn a_walk_stays_ended() {
    let mut store = AttachmentSet::new();
    store.set("only".to_string(), 1i32);
    let mut walk = store.iter();
    assert!(walk.next().is_some());
    assert!(walk.next().is_none());
    assert!(walk.next().is_none());
}

#[test]
fn a_walk_can_be_started_again() {
    let mut store = AttachmentSet::new();
    store.set("a".to_string(), 1i32);
    store.set("b".to_string(), 2i32);
    assert_eq!(sorted_names(&store), vec!["a", "b"]);
    assert_eq!(sorted_names(&store), vec!["a", "b"]);
}

#[test]
fn an_item_reads_its_slot() {
    let mut store = AttachmentSet::new();
    store.set("text".to_string(), "hello".to_string());
    let mut walk = store.iter();
    let item = walk.next().unwrap();
    assert_eq!(item.name(), "text");
    assert!(item.is::<String>());
    assert!(!item.is::<&str>());
    assert!(!item.is::<i32>());
    assert_eq!(item.get::<String>().unwrap(), "hello");
    assert!(item.get::<i32>().is_none());
    assert!(item.get::<&str>().is_none());
}

#[test]
fn two_walks_read_side_by_side() {
    let mut store = AttachmentSet::new();
    store.set("n".to_string(), 5i32);
    let mut first = store.iter();
    let mut second = store.iter();
    let a = first.next().unwrap();
    let b = second.next().unwrap();
    assert_eq!(a.get::<i32>(), Some(&5));
    assert_eq!(b.get::<i32>(), Some(&5));
}

#[test]
fn a_writing_walk_meets_every_name_once() {
    let mut store = AttachmentSet::new();
    store.set("x".to_string(), 1i32);
    store.set("y".to_string(), 2i64);
    store.set("z".to_string(), "three".to_string());
    let mut names = Vec::new();
    let mut walk = store.iter_mut();
    while let Some(item) = walk.next() {
        names.push(item.name().to_string());
    }
    names.sort();
    assert_eq!(names, vec!["x", "y", "z"]);
}

#[test]
fn a_writing_item_reads_its_slot() {
    let mut store = AttachmentSet::new();
    store.set("n".to_string(), 7i32);
    let mut walk = store.iter_mut();
    let item = walk.next().unwrap();
    assert_eq!(item.name(), "n");
    assert!(item.is::<i32>());
    assert!(!item.is::<u32>());
    assert_eq!(item.get::<i32>(), Some(&7));
    assert!(item.get::<u32>().is_none());
}

#[test]
fn a_write_in_a_walk_is_read_back() {
    let mut store = AttachmentSet::new();
    store.set("count".to_string(), 42i32);
    let mut walk = store.iter_mut();
    while let Some(mut item) = walk.next() {
        if let Some(count) = item.get_mut::<i32>() {
            *count += 1;
        }
    }
    assert_eq!(store.get::<i32>("count").as_deref(), Some(&43));
    assert_eq!(store.len(), 1);
    assert!(store.contains_type::<i32>("count"));
}

#[test]
fn a_write_in_a_walk_touches_its_own_slot_only() {
    let mut store = AttachmentSet::new();
    store.set("a".to_string(), 1i32);
    store.set("b".to_string(), 2i32);
    store.set("c".to_string(), "text".to_string());
    let mut walk = store.iter_mut();
    while let Some(mut item) = walk.next() {
        if item.name() == "b" {
            *item.get_mut::<i32>().unwrap() = 20;
            assert_eq!(item.get::<i32>(), Some(&20));
        }
    }
    assert_eq!(store.get::<i32>("a").as_deref(), Some(&1));
    assert_eq!(store.get::<i32>("b").as_deref(), Some(&20));
    assert_eq!(store.get::<String>("c").unwrap().as_str(), "text");
    assert_eq!(store.len(), 3);
}

#[test]
fn a_write_under_another_type_is_not_granted() {
    let mut store = AttachmentSet::new();
    store.set("n".to_string(), 7i32);
    let mut walk = store.iter_mut();
    let mut item = walk.next().unwrap();
    assert!(item.get_mut::<i64>().is_none());
    assert!(item.get_mut::<String>().is_none());
    assert!(item.get_mut::<i32>().is_some());
}

#[test]
fn a_write_to_a_value_held_elsewhere_is_not_granted() {
    let mut store = AttachmentSet::new();
    store.set("n".to_string(), 7i32);
    let held = store.get::<i32>("n").unwrap();
    {
        let mut walk = store.iter_mut();
        let mut item = walk.next().unwrap();
        assert!(item.is::<i32>());
        assert_eq!(item.get::<i32>(), Some(&7));
        assert!(item.get_mut::<i32>().is_none());
    }
    assert_eq!(*held, 7);
    assert_eq!(store.get::<i32>("n").as_deref(), Some(&7));

    drop(held);
    let mut walk = store.iter_mut();
    let mut item = walk.next().unwrap();
    *item.get_mut::<i32>().unwrap() = 8;
    assert_eq!(store.get::<i32>("n").as_deref(), Some(&8));
}

#[test]
fn a_write_to_a_merged_value_is_not_granted_while_both_stores_live() {
    let mut a = AttachmentSet::new();
    let mut b = AttachmentSet::new();
    b.set("n".to_string(), 1i32);
    a.merge(&b);
    {
        let mut walk = a.iter_mut();
        let mut item = walk.next().unwrap();
        assert!(item.get_mut::<i32>().is_none());
    }
    {
        let mut walk = b.iter_mut();
        let mut item = walk.next().unwrap();
        assert!(item.get_mut::<i32>().is_none());
    }
    drop(b);
    let mut walk = a.iter_mut();
    let mut item = walk.next().unwrap();
    *item.get_mut::<i32>().unwrap() += 1;
    assert_eq!(a.get::<i32>("n").as_deref(), Some(&2));
}

#[test]
fn a_write_changes_a_whole_value() {
    let mut store = AttachmentSet::new();
    store.set("list".to_string(), vec![1u8, 2]);
    let mut walk = store.iter_mut();
    while let Some(mut item) = walk.next() {
        if let Some(list) = item.get_mut::<Vec<u8>>() {
            list.push(3);
        }
    }
    assert_eq!(store.get::<Vec<u8>>("list").unwrap().as_slice(), &[1u8, 2, 3]);
}
