use recovery_state::change::{Change, KChange, KWriter};
use recovery_state::keys::{FlowKey, StateKey, StepId};
use recovery_state::resume::FlowStateBytes;
use recovery_state::state::StateBytes;

fn through_a_snapshot(bytes: Vec<u8>) -> Vec<u8> {
    let mut flow = FlowStateBytes::new();
    flow.write(KChange(
        FlowKey(StepId("step".to_string()), StateKey("key".to_string())),
        Change::Upsert(StateBytes(bytes)),
    ));
    let mut claim = flow.remove(&StepId("step".to_string()));
    claim.state.remove(&StateKey("key".to_string())).map(|b| b.0).unwrap_or_default()
}

#[test]
fn encoded_values_come_back_equal() {
    let number: u64 = 0xdead_beef_0000_0001;
    let bytes = through_a_snapshot(bincode::serialize(&number).unwrap());
    assert_eq!(bincode::deserialize::<u64>(&bytes).unwrap(), number);

    let text = "state of a window \u{1f600}".to_string();
    let bytes = through_a_snapshot(bincode::serialize(&text).unwrap());
    assert_eq!(bincode::deserialize::<String>(&bytes).unwrap(), text);

    let nested: Vec<(String, Option<i32>)> =
        vec![("a".to_string(), Some(-1)), ("b".to_string(), None)];
    let bytes = through_a_snapshot(bincode::serialize(&nested).unwrap());
    assert_eq!(bincode::deserialize::<Vec<(String, Option<i32>)>>(&bytes).unwrap(), nested);

    let unit = ();
    let bytes = through_a_snapshot(bincode::serialize(&unit).unwrap());
    assert!(bytes.is_empty());
    assert_eq!(bincode::deserialize::<()>(&bytes).unwrap(), unit);
}

#[test]
fn encoding_is_the_same_each_time() {
    let value = (7u32, "seven".to_string(), vec![7u8; 7]);
    let first = StateBytes(bincode::serialize(&value).unwrap());
    let second = StateBytes(bincode::serialize(&value).unwrap());
    assert_eq!(first.0, second.0);
    assert_eq!(first.clone().0, second.0);
}

#[test]
fn bytes_are_carried_as_they_are() {
    let raw: Vec<u8> = (0..=255u8).collect();
    assert_eq!(through_a_snapshot(raw.clone()), raw);
    assert_eq!(through_a_snapshot(Vec::new()), Vec::<u8>::new());
}

#[test]
fn bytes_of_another_type_do_not_decode() {
    let bytes = through_a_snapshot(bincode::serialize(&1u8).unwrap());
    assert!(bincode::deserialize::<u64>(&bytes).is_err());
}
