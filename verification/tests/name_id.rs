use pso2server::name_id::name_to_id;

#[test]
fn name_to_id_values() {
    assert_eq!(name_to_id(""), 0);
    assert_eq!(name_to_id("a"), 2654435866);
    assert_eq!(name_to_id("ab"), 3449070907);
    assert_eq!(name_to_id("lobby"), 1527092812);
    assert_eq!(name_to_id("casino"), 90965463);
}
