//! User-defined behaviour attached to entities through script components.

use vstd::prelude::*;
use crate::ecs::Id;

verus! {

/// Lifecycle hooks of a scripted behaviour. A script component owns one
/// value of an implementing type and forwards the entity-component-system
/// lifecycle to it: `create` builds the value, `on_create` runs once when
/// the component is attached, `on_update` runs on every tick. The entity
/// is handed to the hooks as its arena index in the owning system.
pub trait Scriptable: Sized {
    fn create() -> Self;

    fn on_create(&mut self, _entity: Id) {
    }

    fn on_update(&mut self, _entity: Id) {
    }

    fn on_destroy() {
    }
}

} // verus!
