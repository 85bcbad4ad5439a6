//! A verified instance of the kind of code the generator emits: an entity
//! with four optional component slots, its accessors, its mutable
//! accessors and its presence predicates.

use vstd::prelude::*;

verus! {

/// A numeric component.
#[derive(Debug, Default, Clone, Copy, PartialEq, Eq, Structural)]
pub struct NumComponent {
    pub num: u32,
}

/// A text component.
#[derive(Debug, Default, Clone)]
pub struct StringComponent {
    pub str: String,
}

/// A second numeric component; its value is kept as a plain integer.
#[derive(Debug, Default, Clone, Copy, PartialEq, Eq, Structural)]
pub struct FloatComponent {
    pub val: i64,
}

/// A component with no data.
#[derive(Debug, Default, Clone, Copy, PartialEq, Eq, Structural)]
pub struct DummyComponent {
}

/// A record with one optional slot per component.
#[derive(Debug, Clone)]
pub struct Entity {
    pub num_component: Option<NumComponent>,
    pub string_component: Option<StringComponent>,
    pub float_component: Option<FloatComponent>,
    pub dummy_component: Option<DummyComponent>,
}

impl Default for Entity {
    /// An entity with every slot empty.
    fn default() -> (r: Self)
        ensures
            r.num_component is None,
            r.string_component is None,
            r.float_component is None,
            r.dummy_component is None,
    {
        Entity {
            num_component: None,
            string_component: None,
            float_component: None,
            dummy_component: None,
        }
    }
}

impl Entity {
    /// The numeric component; the slot must be filled.
    pub fn num_component(&self) -> (r: &NumComponent)
        requires
            self.num_component is Some,
        ensures
            *r == self.num_component->0,
    {
        self.num_component.as_ref().unwrap()
    }

    /// The text component; the slot must be filled.
    pub fn string_component(&self) -> (r: &StringComponent)
        requires
            self.string_component is Some,
        ensures
            *r == self.string_component->0,
    {
        self.string_component.as_ref().unwrap()
    }

    /// The second numeric component; the slot must be filled.
    pub fn float_component(&self) -> (r: &FloatComponent)
        requires
            self.float_component is Some,
        ensures
            *r == self.float_component->0,
    {
        self.float_component.as_ref().unwrap()
    }

    /// The empty component; the slot must be filled.
    pub fn dummy_component(&self) -> (r: &DummyComponent)
        requires
            self.dummy_component is Some,
        ensures
            *r == self.dummy_component->0,
    {
        self.dummy_component.as_ref().unwrap()
    }

    /// Mutable access to the numeric component; the slot must be filled.
    pub fn mut_num_component(&mut self) -> (r: &mut NumComponent)
        requires
            old(self).num_component is Some,
        ensures
            *r == old(self).num_component->0,
            final(self).num_component == Some(*final(r)),
            final(self).string_component == old(self).string_component,
            final(self).float_component == old(self).float_component,
            final(self).dummy_component == old(self).dummy_component,
    {
        match &mut self.num_component {
            Some(c) => c,
            None => vstd::pervasive::unreached(),
        }
    }

    /// Mutable access to the text component; the slot must be filled.
    pub fn mut_string_component(&mut self) -> (r: &mut StringComponent)
        requires
            old(self).string_component is Some,
        ensures
            *r == old(self).string_component->0,
            final(self).string_component == Some(*final(r)),
            final(self).num_component == old(self).num_component,
            final(self).float_component == old(self).float_component,
            final(self).dummy_component == old(self).dummy_component,
    {
        match &mut self.string_component {
            Some(c) => c,
            None => vstd::pervasive::unreached(),
        }
    }

    /// Mutable access to the second numeric component; the slot must be
    /// filled.
    pub fn mut_float_component(&mut self) -> (r: &mut FloatComponent)
        requires
            old(self).float_component is Some,
        ensures
            *r == old(self).float_component->0,
            final(self).float_component == Some(*final(r)),
            final(self).num_component == old(self).num_component,
            final(self).string_component == old(self).string_component,
            final(self).dummy_component == old(self).dummy_component,
    {
        match &mut self.float_component {
            Some(c) => c,
            None => vstd::pervasive::unreached(),
        }
    }

    /// Whether the numeric slot is filled.
    pub fn has_num_component(&self) -> (r: bool)
        ensures
            r == (self.num_component is Some),
    {
        self.num_component.is_some()
    }

    /// Whether the text slot is filled.
    pub fn has_string_component(&self) -> (r: bool)
        ensures
            r == (self.string_component is Some),
    {
        self.string_component.is_some()
    }

    /// Whether the second numeric slot is filled.
    pub fn has_float_component(&self) -> (r: bool)
        ensures
            r == (self.float_component is Some),
    {
        self.float_component.is_some()
    }

    /// Whether the empty-component slot is filled.
    pub fn has_dummy_component(&self) -> (r: bool)
        ensures
            r == (self.dummy_component is Some),
    {
        self.dummy_component.is_some()
    }
}

} // verus!
