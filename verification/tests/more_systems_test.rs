use silly_ecs::entity::{Entity, FloatComponent, NumComponent, StringComponent};
use silly_ecs::systems::{append_to_string_component, sys_inc_num, sys_inc_numbers};

#[test]
fn inc_num_raises_only_entities_with_num_components() {
    let mut entities = vec![
        Entity { num_component: Some(NumComponent { num: 10 }), ..Default::default() },
        Entity::default(),
        Entity { num_component: Some(NumComponent { num: 0 }), ..Default::default() },
    ];
    sys_inc_num(&mut entities);
    assert_eq!(entities[0].num_component().num, 15);
    assert!(!entities[1].has_num_component());
    assert_eq!(entities[2].num_component().num, 5);
}

#[test]
fn inc_numbers_raises_both_numeric_components() {
    let mut entities = vec![
        Entity {
            num_component: Some(NumComponent { num: 1 }),
            float_component: Some(FloatComponent { val: -30 }),
            ..Default::default()
        },
        Entity { num_component: Some(NumComponent { num: 7 }), ..Default::default() },
    ];
    sys_inc_numbers(&mut entities);
    assert_eq!(entities[0].num_component().num, 11);
    assert_eq!(entities[0].float_component().val, -10);
    assert_eq!(entities[1].num_component().num, 7);
}

#[test]
fn appending_to_the_string_component() {
    let mut entity = Entity {
        string_component: Some(StringComponent { str: "abc".into() }),
        ..Default::default()
    };
    append_to_string_component(&mut entity, "XXXX");
    assert_eq!(entity.string_component().str, "abcXXXX");
}

#[test]
fn dummy_component_predicate() {
    let entity = Entity::default();
    assert!(!entity.has_dummy_component());
    assert!(!entity.has_float_component());
}
