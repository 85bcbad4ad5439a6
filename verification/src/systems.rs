//! A verified instance of the dispatch code the generator emits: systems
//! over the entity's components, and wrappers that run each system on
//! exactly the entities owning every component the system asks for.

use vstd::prelude::*;

use crate::entity::{Entity, FloatComponent, NumComponent};

verus! {

/// Records which components the spying systems were handed, in call order.
#[derive(Debug)]
pub struct SystemSpy {
    pub called_num_components: Vec<NumComponent>,
    pub called_float_components: Vec<FloatComponent>,
}

impl Default for SystemSpy {
    /// A spy that has recorded nothing.
    fn default() -> (r: Self)
        ensures
            r.called_num_components@ == Seq::<NumComponent>::empty(),
            r.called_float_components@ == Seq::<FloatComponent>::empty(),
    {
        SystemSpy { called_num_components: Vec::new(), called_float_components: Vec::new() }
    }
}

/// A sink for values a system wants shown; implemented outside the library.
pub trait Renderer {
    fn render<T: core::fmt::Debug>(&self, renderable: T);
}

/// Mutable access to one entity of a collection.
fn entity_at(entities: &mut Vec<Entity>, i: usize) -> (e: &mut Entity)
    requires
        i < old(entities)@.len(),
    ensures
        *e == old(entities)@[i as int],
        final(entities)@ == old(entities)@.update(i as int, *final(e)),
{
    &mut entities[i]
}

/// `e` with its numeric component's value raised by five.
pub open spec fn inc_num_spec(e: Entity) -> Entity {
    Entity { num_component: Some(NumComponent { num: (e.num_component->0.num + 5) as u32 }), ..e }
}

/// Raises the numeric component's value by five.
pub fn inc_num(entity: &mut Entity)
    requires
        old(entity).num_component is Some,
        old(entity).num_component->0.num + 5 <= u32::MAX,
    ensures
        *final(entity) == inc_num_spec(*old(entity)),
{
    let c = entity.mut_num_component();
    c.num = c.num + 5;
}

/// Runs `inc_num` on exactly the entities owning a numeric component.
pub fn sys_inc_num(entities: &mut Vec<Entity>)
    requires
        forall|k: int|
            0 <= k < old(entities)@.len() && (#[trigger] old(
                entities,
            )@[k]).num_component is Some ==> old(entities)@[k].num_component->0.num + 5
                <= u32::MAX,
    ensures
        final(entities)@.len() == old(entities)@.len(),
        forall|k: int|
            0 <= k < old(entities)@.len() ==> #[trigger] final(entities)@[k] == (if old(
                entities,
            )@[k].num_component is Some {
                inc_num_spec(old(entities)@[k])
            } else {
                old(entities)@[k]
            }),
{
    let n = entities.len();
    let mut i: usize = 0;
    while i < n
        invariant
            i <= n,
            n == old(entities)@.len(),
            entities@.len() == n,
            forall|k: int|
                0 <= k < old(entities)@.len() && (#[trigger] old(
                    entities,
                )@[k]).num_component is Some ==> old(entities)@[k].num_component->0.num + 5
                    <= u32::MAX,
            forall|k: int|
                0 <= k < i ==> #[trigger] entities@[k] == (if old(
                    entities,
                )@[k].num_component is Some {
                    inc_num_spec(old(entities)@[k])
                } else {
                    old(entities)@[k]
                }),
            forall|k: int| i <= k < n ==> #[trigger] entities@[k] == old(entities)@[k],
        decreases n - i,
    {
        let has = entities[i].num_component.is_some();
        if has {
            let e = entity_at(entities, i);
            inc_num(e);
        }
        i = i + 1;
    }
}

/// `e` with its numeric component's value raised by ten and its second
/// numeric component's value raised by twenty.
pub open spec fn inc_numbers_spec(e: Entity) -> Entity {
    Entity {
        num_component: Some(NumComponent { num: (e.num_component->0.num + 10) as u32 }),
        float_component: Some(FloatComponent { val: (e.float_component->0.val + 20) as i64 }),
        ..e
    }
}

/// Raises the numeric component's value by ten and the second numeric
/// component's value by twenty.
pub fn inc_numbers(entity: &mut Entity)
    requires
        old(entity).num_component is Some,
        old(entity).float_component is Some,
        old(entity).num_component->0.num + 10 <= u32::MAX,
        old(entity).float_component->0.val + 20 <= i64::MAX,
    ensures
        *final(entity) == inc_numbers_spec(*old(entity)),
{
    let c = entity.mut_num_component();
    c.num = c.num + 10;
    let f = entity.mut_float_component();
    f.val = f.val + 20;
}

/// Runs `inc_numbers` on exactly the entities owning both numeric
/// components.
pub fn sys_inc_numbers(entities: &mut Vec<Entity>)
    requires
        forall|k: int|
            0 <= k < old(entities)@.len() && (#[trigger] old(
                entities,
            )@[k]).num_component is Some && old(entities)@[k].float_component is Some ==> old(
                entities,
            )@[k].num_component->0.num + 10 <= u32::MAX && old(entities)@[k].float_component->0.val
                + 20 <= i64::MAX,
    ensures
        final(entities)@.len() == old(entities)@.len(),
        forall|k: int|
            0 <= k < old(entities)@.len() ==> #[trigger] final(entities)@[k] == (if old(
                entities,
            )@[k].num_component is Some && old(entities)@[k].float_component is Some {
                inc_numbers_spec(old(entities)@[k])
            } else {
                old(entities)@[k]
            }),
{
    let n = entities.len();
    let mut i: usize = 0;
    while i < n
        invariant
            i <= n,
            n == old(entities)@.len(),
            entities@.len() == n,
            forall|k: int|
                0 <= k < old(entities)@.len() && (#[trigger] old(
                    entities,
                )@[k]).num_component is Some && old(entities)@[k].float_component is Some ==> old(
                    entities,
                )@[k].num_component->0.num + 10 <= u32::MAX && old(
                    entities,
                )@[k].float_component->0.val + 20 <= i64::MAX,
            forall|k: int|
                0 <= k < i ==> #[trigger] entities@[k] == (if old(
                    entities,
                )@[k].num_component is Some && old(entities)@[k].float_component is Some {
                    inc_numbers_spec(old(entities)@[k])
                } else {
                    old(entities)@[k]
                }),
            forall|k: int| i <= k < n ==> #[trigger] entities@[k] == old(entities)@[k],
        decreases n - i,
    {
        let has = entities[i].num_component.is_some() && entities[i].float_component.is_some();
        if has {
            let e = entity_at(entities, i);
            inc_numbers(e);
        }
        i = i + 1;
    }
}

/// The numeric components of the entities owning one, in order.
pub open spec fn visited_nums_any(es: Seq<Entity>) -> Seq<NumComponent>
    decreases es.len(),
{
    if es.len() == 0 {
        Seq::empty()
    } else {
        visited_nums_any(es.drop_last()) + (if es.last().num_component is Some {
            seq![es.last().num_component->0]
        } else {
            Seq::empty()
        })
    }
}

/// The numeric components of the entities owning both a numeric and a
/// second numeric component, in order.
pub open spec fn visited_nums_both(es: Seq<Entity>) -> Seq<NumComponent>
    decreases es.len(),
{
    if es.len() == 0 {
        Seq::empty()
    } else {
        visited_nums_both(es.drop_last()) + (if es.last().num_component is Some
            && es.last().float_component is Some {
            seq![es.last().num_component->0]
        } else {
            Seq::empty()
        })
    }
}

/// The second numeric components of the entities owning both a numeric and
/// a second numeric component, in order.
pub open spec fn visited_floats_both(es: Seq<Entity>) -> Seq<FloatComponent>
    decreases es.len(),
{
    if es.len() == 0 {
        Seq::empty()
    } else {
        visited_floats_both(es.drop_last()) + (if es.last().num_component is Some
            && es.last().float_component is Some {
            seq![es.last().float_component->0]
        } else {
            Seq::empty()
        })
    }
}

proof fn lemma_visited_nums_any_step(es: Seq<Entity>, i: int)
    requires
        0 <= i < es.len(),
    ensures
        visited_nums_any(es.take(i + 1)) == visited_nums_any(es.take(i)) + (if es[i].num_component is Some {
            seq![es[i].num_component->0]
        } else {
            Seq::<NumComponent>::empty()
        }),
{
    assert(es.take(i + 1).drop_last() =~= es.take(i));
    assert(es.take(i + 1).last() == es[i]);
}

proof fn lemma_visited_nums_both_step(es: Seq<Entity>, i: int)
    requires
        0 <= i < es.len(),
    ensures
        visited_nums_both(es.take(i + 1)) == visited_nums_both(es.take(i)) + (if es[i].num_component is Some
            && es[i].float_component is Some {
            seq![es[i].num_component->0]
        } else {
            Seq::<NumComponent>::empty()
        }),
{
    assert(es.take(i + 1).drop_last() =~= es.take(i));
    assert(es.take(i + 1).last() == es[i]);
}

proof fn lemma_visited_floats_both_step(es: Seq<Entity>, i: int)
    requires
        0 <= i < es.len(),
    ensures
        visited_floats_both(es.take(i + 1)) == visited_floats_both(es.take(i)) + (if es[i].num_component is Some
            && es[i].float_component is Some {
            seq![es[i].float_component->0]
        } else {
            Seq::<FloatComponent>::empty()
        }),
{
    assert(es.take(i + 1).drop_last() =~= es.take(i));
    assert(es.take(i + 1).last() == es[i]);
}

/// Records both components of one entity owning both.
pub fn for_all(entity: &Entity, spy: &mut SystemSpy)
    requires
        entity.num_component is Some,
        entity.float_component is Some,
    ensures
        final(spy).called_num_components@ == old(spy).called_num_components@.push(
            entity.num_component->0,
        ),
        final(spy).called_float_components@ == old(spy).called_float_components@.push(
            entity.float_component->0,
        ),
{
    spy.called_num_components.push(entity.num_component().clone());
    spy.called_float_components.push(entity.float_component().clone());
}

/// Runs `for_all` on exactly the entities owning both numeric components.
pub fn sys_for_all(entities: &Vec<Entity>, spy: &mut SystemSpy)
    ensures
        final(spy).called_num_components@ == old(spy).called_num_components@ + visited_nums_both(
            entities@,
        ),
        final(spy).called_float_components@ == old(spy).called_float_components@
            + visited_floats_both(entities@),
{
    let ghost es = entities@;
    let n = entities.len();
    let mut i: usize = 0;
    proof {
        assert(es.take(0) =~= Seq::<Entity>::empty());
        assert(spy.called_num_components@ + visited_nums_both(es.take(0))
            =~= spy.called_num_components@);
        assert(spy.called_float_components@ + visited_floats_both(es.take(0))
            =~= spy.called_float_components@);
    }
    while i < n
        invariant
            i <= n,
            n == es.len(),
            es == entities@,
            spy.called_num_components@ == old(spy).called_num_components@ + visited_nums_both(
                es.take(i as int),
            ),
            spy.called_float_components@ == old(spy).called_float_components@
                + visited_floats_both(es.take(i as int)),
        decreases n - i,
    {
        let has = entities[i].num_component.is_some() && entities[i].float_component.is_some();
        let ghost nums_before = spy.called_num_components@;
        let ghost floats_before = spy.called_float_components@;
        if has {
            for_all(&entities[i], spy);
        }
        proof {
            lemma_visited_nums_both_step(es, i as int);
            lemma_visited_floats_both_step(es, i as int);
            if has {
                assert(spy.called_num_components@ =~= old(spy).called_num_components@
                    + visited_nums_both(es.take(i + 1)));
                assert(spy.called_float_components@ =~= old(spy).called_float_components@
                    + visited_floats_both(es.take(i + 1)));
            } else {
                assert(spy.called_num_components@ =~= old(spy).called_num_components@
                    + visited_nums_both(es.take(i + 1)));
                assert(spy.called_float_components@ =~= old(spy).called_float_components@
                    + visited_floats_both(es.take(i + 1)));
            }
        }
        i = i + 1;
    }
    proof {
        assert(es.take(n as int) =~= es);
    }
}

/// Records the numeric component of one entity owning it, and its second
/// numeric component where that one is owned too.
pub fn for_all_num_components(entity: &Entity, spy: &mut SystemSpy)
    requires
        entity.num_component is Some,
    ensures
        final(spy).called_num_components@ == old(spy).called_num_components@.push(
            entity.num_component->0,
        ),
        final(spy).called_float_components@ == (if entity.float_component is Some {
            old(spy).called_float_components@.push(entity.float_component->0)
        } else {
            old(spy).called_float_components@
        }),
{
    spy.called_num_components.push(entity.num_component().clone());
    if entity.has_float_component() {
        spy.called_float_components.push(entity.float_component().clone());
    }
}

/// Runs `for_all_num_components` on exactly the entities owning a numeric
/// component.
pub fn sys_for_all_num_components(entities: &Vec<Entity>, spy: &mut SystemSpy)
    ensures
        final(spy).called_num_components@ == old(spy).called_num_components@ + visited_nums_any(
            entities@,
        ),
        final(spy).called_float_components@ == old(spy).called_float_components@
            + visited_floats_both(entities@),
{
    let ghost es = entities@;
    let n = entities.len();
    let mut i: usize = 0;
    proof {
        assert(es.take(0) =~= Seq::<Entity>::empty());
        assert(spy.called_num_components@ + visited_nums_any(es.take(0))
            =~= spy.called_num_components@);
        assert(spy.called_float_components@ + visited_floats_both(es.take(0))
            =~= spy.called_float_components@);
    }
    while i < n
        invariant
            i <= n,
            n == es.len(),
            es == entities@,
            spy.called_num_components@ == old(spy).called_num_components@ + visited_nums_any(
                es.take(i as int),
            ),
            spy.called_float_components@ == old(spy).called_float_components@
                + visited_floats_both(es.take(i as int)),
        decreases n - i,
    {
        let has = entities[i].num_component.is_some();
        if has {
            for_all_num_components(&entities[i], spy);
        }
        proof {
            lemma_visited_nums_any_step(es, i as int);
            lemma_visited_floats_both_step(es, i as int);
            assert(spy.called_num_components@ =~= old(spy).called_num_components@
                + visited_nums_any(es.take(i + 1)));
            assert(spy.called_float_components@ =~= old(spy).called_float_components@
                + visited_floats_both(es.take(i + 1)));
        }
        i = i + 1;
    }
    proof {
        assert(es.take(n as int) =~= es);
    }
}

/// `e` with its numeric component's value doubled.
pub open spec fn double_num_spec(e: Entity) -> Entity {
    Entity { num_component: Some(NumComponent { num: (e.num_component->0.num * 2) as u32 }), ..e }
}

/// Doubles the numeric component's value and records the second numeric
/// component.
pub fn modify_num_components(entity: &mut Entity, spy: &mut SystemSpy)
    requires
        old(entity).num_component is Some,
        old(entity).float_component is Some,
        old(entity).num_component->0.num * 2 <= u32::MAX,
    ensures
        *final(entity) == double_num_spec(*old(entity)),
        final(spy).called_num_components@ == old(spy).called_num_components@,
        final(spy).called_float_components@ == old(spy).called_float_components@.push(
            old(entity).float_component->0,
        ),
{
    let c = entity.mut_num_component();
    c.num = c.num * 2;
    spy.called_float_components.push(entity.float_component().clone());
}

/// Runs `modify_num_components` on exactly the entities owning both
/// numeric components.
pub fn sys_modify_num_components(entities: &mut Vec<Entity>, spy: &mut SystemSpy)
    requires
        forall|k: int|
            0 <= k < old(entities)@.len() && (#[trigger] old(
                entities,
            )@[k]).num_component is Some && old(entities)@[k].float_component is Some ==> old(
                entities,
            )@[k].num_component->0.num * 2 <= u32::MAX,
    ensures
        final(entities)@.len() == old(entities)@.len(),
        forall|k: int|
            0 <= k < old(entities)@.len() ==> #[trigger] final(entities)@[k] == (if old(
                entities,
            )@[k].num_component is Some && old(entities)@[k].float_component is Some {
                double_num_spec(old(entities)@[k])
            } else {
                old(entities)@[k]
            }),
        final(spy).called_num_components@ == old(spy).called_num_components@,
        final(spy).called_float_components@ == old(spy).called_float_components@
            + visited_floats_both(old(entities)@),
{
    let ghost es = old(entities)@;
    let n = entities.len();
    let mut i: usize = 0;
    proof {
        assert(es.take(0) =~= Seq::<Entity>::empty());
        assert(spy.called_float_components@ + visited_floats_both(es.take(0))
            =~= spy.called_float_components@);
    }
    while i < n
        invariant
            i <= n,
            n == es.len(),
            es == old(entities)@,
            entities@.len() == n,
            forall|k: int|
                0 <= k < es.len() && (#[trigger] es[k]).num_component is Some
                    && es[k].float_component is Some ==> es[k].num_component->0.num * 2
                    <= u32::MAX,
            forall|k: int|
                0 <= k < i ==> #[trigger] entities@[k] == (if es[k].num_component is Some
                    && es[k].float_component is Some {
                    double_num_spec(es[k])
                } else {
                    es[k]
                }),
            forall|k: int| i <= k < n ==> #[trigger] entities@[k] == es[k],
            spy.called_num_components@ == old(spy).called_num_components@,
            spy.called_float_components@ == old(spy).called_float_components@
                + visited_floats_both(es.take(i as int)),
        decreases n - i,
    {
        let has = entities[i].num_component.is_some() && entities[i].float_component.is_some();
        if has {
            let e = entity_at(entities, i);
            modify_num_components(e, spy);
        }
        proof {
            lemma_visited_floats_both_step(es, i as int);
            assert(spy.called_float_components@ =~= old(spy).called_float_components@
                + visited_floats_both(es.take(i + 1)));
        }
        i = i + 1;
    }
    proof {
        assert(es.take(n as int) =~= es);
    }
}

/// Hands the values of all three data-carrying components to the renderer.
pub fn render_data<T: Renderer>(entity: &Entity, renderer: &T)
    requires
        entity.num_component is Some,
        entity.float_component is Some,
        entity.string_component is Some,
{
    renderer.render(entity.num_component().num);
    renderer.render(entity.float_component().val);
    renderer.render(entity.string_component().str.as_str());
}

/// Runs `render_data` on exactly the entities owning all three
/// data-carrying components.
pub fn sys_render_data<T: Renderer>(entities: &Vec<Entity>, renderer: &T) {
    let n = entities.len();
    let mut i: usize = 0;
    while i < n
        invariant
            i <= n,
            n == entities@.len(),
        decreases n - i,
    {
        let has = entities[i].num_component.is_some() && entities[i].float_component.is_some()
            && entities[i].string_component.is_some();
        if has {
            render_data(&entities[i], renderer);
        }
        i = i + 1;
    }
}

/// Appends `suffix` to the text component's value.
pub fn append_to_string_component(entity: &mut Entity, suffix: &str)
    requires
        old(entity).string_component is Some,
    ensures
        final(entity).string_component is Some,
        final(entity).string_component->0.str@ == old(entity).string_component->0.str@ + suffix@,
        final(entity).num_component == old(entity).num_component,
        final(entity).float_component == old(entity).float_component,
        final(entity).dummy_component == old(entity).dummy_component,
{
    let s = entity.mut_string_component();
    s.str.append(suffix);
}

} // verus!
