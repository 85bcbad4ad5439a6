use std::cell::RefCell;

use silly_ecs::entity::{Entity, FloatComponent, NumComponent, StringComponent};
use silly_ecs::systems::{
    sys_for_all, sys_for_all_num_components, sys_modify_num_components, sys_render_data, Renderer,
    SystemSpy,
};

#[derive(Default)]
struct MyRenderer {
    log: RefCell<Vec<String>>,
}

impl Renderer for MyRenderer {
    fn render<T: std::fmt::Debug>(&self, renderable: T) {
        self.log.borrow_mut().push(format!("{:?}", renderable))
    }
}

#[test]
fn for_all_calls_entities_with_both_components() {
    let entities = vec![
        Entity::default(),
        Entity {
            num_component: Some(NumComponent { num: 1111 }),
            float_component: Some(FloatComponent { val: 2222 }),
            ..Default::default()
        },
        Entity {
            num_component: Some(NumComponent { num: 3333 }),
            float_component: Some(FloatComponent { val: 4444 }),
            ..Default::default()
        },
    ];

    let mut spy = SystemSpy::default();
    sys_for_all(&entities, &mut spy);

    assert_eq!(spy.called_num_components.len(), 2);
    assert_eq!(spy.called_float_components.len(), 2);

    assert_eq!(*entities[1].num_component(), spy.called_num_components[0]);
    assert_eq!(*entities[2].num_component(), spy.called_num_components[1]);

    assert_eq!(*entities[1].float_component(), spy.called_float_components[0]);
    assert_eq!(*entities[2].float_component(), spy.called_float_components[1]);
}

#[test]
fn for_num_components_calls_entities_with_num_components_only() {
    let entities = vec![
        Entity { num_component: Some(NumComponent { num: 1234 }), ..Default::default() },
        Entity::default(),
    ];

    let mut spy = SystemSpy::default();
    sys_for_all_num_components(&entities, &mut spy);

    assert_eq!(spy.called_num_components.len(), 1);
    assert_eq!(spy.called_float_components.len(), 0);
    assert_eq!(*entities[0].num_component(), spy.called_num_components[0]);
}

#[test]
fn modify_num_components_multiplies_numbers() {
    let mut entities = vec![
        Entity {
            num_component: Some(NumComponent { num: 1111 }),
            float_component: Some(FloatComponent { val: 1 }),
            ..Default::default()
        },
        Entity {
            num_component: Some(NumComponent { num: 2222 }),
            float_component: Some(FloatComponent { val: 2 }),
            ..Default::default()
        },
    ];

    let mut spy = SystemSpy::default();
    sys_modify_num_components(&mut entities, &mut spy);

    assert_eq!(entities[0].num_component().num, 2222);
    assert_eq!(entities[1].num_component().num, 4444);
    assert_eq!(*entities[0].float_component(), spy.called_float_components[0]);
    assert_eq!(*entities[1].float_component(), spy.called_float_components[1]);
}

#[test]
fn can_use_generics_in_systems() {
    let entities = vec![Entity {
        num_component: Some(NumComponent { num: 1234 }),
        float_component: Some(FloatComponent { val: 567 }),
        string_component: Some(StringComponent { str: "efgh".into() }),
        ..Default::default()
    }];

    let renderer = MyRenderer::default();
    sys_render_data(&entities, &renderer);
    let log = renderer.log.borrow();
    assert_eq!(*log, vec!["1234".to_string(), "567".to_string(), "\"efgh\"".to_string()]);
}
