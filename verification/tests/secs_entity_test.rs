use silly_ecs::entity::{Entity, NumComponent, StringComponent};

#[test]
pub fn secs_entity_test_default_entity_has_no_components() {
    let entity = Entity::default();
    assert!(!entity.has_num_component());
    assert!(!entity.has_string_component());
}

#[test]
pub fn secs_entity_test_can_construct_with_components() {
    let entity = Entity {
        num_component: Some(NumComponent::default()),
        string_component: Some(StringComponent::default()),
        ..Default::default()
    };
    assert!(entity.has_num_component());
    assert!(entity.has_string_component());
}

#[test]
pub fn can_get_components() {
    let entity = Entity {
        num_component: Some(NumComponent { num: 1234 }),
        string_component: Some(StringComponent { str: "abcd".into() }),
        ..Default::default()
    };
    assert_eq!(entity.num_component().num, 1234);
    assert_eq!(entity.string_component().str, "abcd");
}

#[test]
pub fn can_get_components_and_modify() {
    let mut entity = Entity {
        num_component: Some(NumComponent { num: 1000 }),
        string_component: Some(StringComponent { str: "abcd".into() }),
        ..Default::default()
    };

    entity.mut_num_component().num += 1000;
    entity.mut_string_component().str += "efgh";

    assert_eq!(entity.num_component().num, 2000);
    assert_eq!(entity.string_component().str, "abcdefgh");
}
