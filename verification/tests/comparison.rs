use rivora::error::RivoraError;
use rivora::ids::ObjectId;
use rivora::proposal_content::comparison_ids;

fn oid(v: u128) -> ObjectId {
    ObjectId { value: v }
}

#[test]
fn comparison_needs_two_proposals() {
    match comparison_ids(&vec![oid(3)]) {
        Err(RivoraError::Validation { message }) => assert_eq!(message, "at least two proposals are required for comparison"),
        _ => panic!("expected a validation error"),
    }
}

#[test]
fn comparison_needs_two_distinct_proposals() {
    match comparison_ids(&vec![oid(3), oid(3)]) {
        Err(RivoraError::Validation { message }) => {
            assert_eq!(message, "at least two distinct proposals are required for comparison")
        }
        _ => panic!("expected a validation error"),
    }
}

#[test]
fn comparison_ids_are_distinct_and_ascending() {
    let ids = comparison_ids(&vec![oid(9), oid(2), oid(9), oid(5)]).unwrap();
    assert_eq!(ids, vec![oid(2), oid(5), oid(9)]);
}
