use dal::ids::AttributeValueId;
use dal::index_map::IndexMap;

fn key(text: &str) -> Option<String> {
    Some(text.to_string())
}

#[test]
fn insertion_order_is_kept_and_removal_leaves_the_rest() {
    let mut index_map = IndexMap::new();
    index_map.push(AttributeValueId(1), key("k1"));
    index_map.push(AttributeValueId(2), key("k2"));
    assert_eq!(index_map.keys(), vec![key("k1"), key("k2")]);
    assert_eq!(index_map.order(), vec![AttributeValueId(1), AttributeValueId(2)]);
    index_map.remove_key("k1".to_string());
    assert_eq!(index_map.keys(), vec![key("k2")]);
    assert_eq!(index_map.order(), vec![AttributeValueId(2)]);
}

#[test]
fn array_children_keep_insertion_order() {
    let mut index_map = IndexMap::new();
    index_map.push(AttributeValueId(5), None);
    index_map.push(AttributeValueId(3), None);
    index_map.push(AttributeValueId(9), None);
    assert_eq!(
        index_map.order(),
        vec![AttributeValueId(5), AttributeValueId(3), AttributeValueId(9)]
    );
    assert_eq!(index_map.keys(), vec![None, None, None]);
    assert_eq!(index_map.len(), 3);
    assert_eq!(index_map.position(AttributeValueId(3)), Some(1));
    assert_eq!(index_map.position(AttributeValueId(4)), None);
}

#[test]
fn writing_a_key_again_moves_it_to_the_end() {
    let mut index_map = IndexMap::new();
    index_map.push(AttributeValueId(1), key("a"));
    index_map.push(AttributeValueId(2), key("b"));
    index_map.push(AttributeValueId(3), key("a"));
    assert_eq!(index_map.order(), vec![AttributeValueId(2), AttributeValueId(3)]);
    assert_eq!(index_map.keys(), vec![key("b"), key("a")]);
}

#[test]
fn pushing_a_child_again_moves_it_to_the_end() {
    let mut index_map = IndexMap::new();
    index_map.push(AttributeValueId(1), key("a"));
    index_map.push(AttributeValueId(2), key("b"));
    index_map.push(AttributeValueId(1), key("c"));
    assert_eq!(index_map.order(), vec![AttributeValueId(2), AttributeValueId(1)]);
    assert_eq!(index_map.keys(), vec![key("b"), key("c")]);
}

#[test]
fn removing_by_child() {
    let mut index_map = IndexMap::new();
    index_map.push(AttributeValueId(1), key("a"));
    index_map.push(AttributeValueId(2), None);
    index_map.push(AttributeValueId(3), key("c"));
    index_map.remove(AttributeValueId(2));
    assert_eq!(index_map.order(), vec![AttributeValueId(1), AttributeValueId(3)]);
    index_map.remove(AttributeValueId(7));
    assert_eq!(index_map.len(), 2);
    index_map.remove_key("missing".to_string());
    assert_eq!(index_map.len(), 2);
}

#[test]
fn entries_are_read_by_position() {
    let mut index_map = IndexMap::new();
    assert!(index_map.get(0).is_none());
    index_map.push(AttributeValueId(4), key("x"));
    let entry = index_map.get(0).expect("one entry");
    assert_eq!(entry.attribute_value_id, AttributeValueId(4));
    assert_eq!(entry.key, key("x"));
    assert!(index_map.get(1).is_none());
}

#[test]
fn a_duplicate_has_the_same_entries() {
    let mut index_map = IndexMap::new();
    index_map.push(AttributeValueId(1), key("a"));
    index_map.push(AttributeValueId(2), None);
    let copy = index_map.clone();
    index_map.remove(AttributeValueId(1));
    assert_eq!(copy.order(), vec![AttributeValueId(1), AttributeValueId(2)]);
    assert_eq!(copy.keys(), vec![key("a"), None]);
    assert_eq!(index_map.order(), vec![AttributeValueId(2)]);
}
