use oss_client::finalizer::order_parts;
use oss_client::session::PartRecord;

fn record(part_number: i32, entity_tag: &str) -> PartRecord {
    PartRecord { part_number, entity_tag: entity_tag.to_string(), size: 10 }
}

#[test]
fn order_parts_sorts_by_part_number() {
    // Concurrent uploads settle in arbitrary order; the completion call
    // still sees the parts strictly ascending.
    let scrambled = vec![record(3, "c"), record(1, "a"), record(4, "d"), record(2, "b")];
    let ordered = order_parts(scrambled);
    assert_eq!(ordered.len(), 4);
    for (i, p) in ordered.iter().enumerate() {
        assert_eq!(p.part_number, i as i32 + 1);
    }
    assert_eq!(ordered[0].entity_tag, "a".to_string());
    assert_eq!(ordered[1].entity_tag, "b".to_string());
    assert_eq!(ordered[2].entity_tag, "c".to_string());
    assert_eq!(ordered[3].entity_tag, "d".to_string());
}

#[test]
fn order_parts_keeps_an_already_sorted_list() {
    let sorted = vec![record(1, "a"), record(2, "b")];
    let ordered = order_parts(sorted);
    assert_eq!(ordered[0].part_number, 1);
    assert_eq!(ordered[1].part_number, 2);
}

#[test]
fn order_parts_of_nothing_is_nothing() {
    assert_eq!(order_parts(vec![]).len(), 0);
}
