use silly_ecs::entity::{Entity, NumComponent, StringComponent};

#[test]
pub fn secs_tests_default_entity_has_no_components() {
    let entity = Entity::default();
    assert!(!entity.has_num_component());
    assert!(!entity.has_string_component());
}

#[test]
pub fn secs_tests_can_construct_with_components() {
    let entity = Entity {
        num_component: Some(NumComponent::default()),
        string_component: Some(StringComponent::default()),
        ..Default::default()
    };
    assert!(entity.has_num_component());
    assert!(entity.has_string_component());
}
