use vstd::prelude::*;

use crate::geometry::{Point, Shape};
use crate::store::{dynamic_entity, Classification, DynamicBody, EntityHandle, EntityStore};

verus! {

#[derive(Clone, Copy, Debug, PartialEq, Eq, Structural)]
pub enum MouseButton {
    Left,
    Right,
    Middle,
    Other,
}

/// Edge events fire once per discrete click; level events once per tick while a
/// button is held.
#[derive(Clone, Copy, Debug, PartialEq, Eq, Structural)]
pub enum TriggerKind {
    Edge,
    Level,
}

/// An input event, with its position already in simulation space.
#[derive(Clone, Copy, Debug, PartialEq, Eq, Structural)]
pub struct InputEvent {
    pub button: MouseButton,
    pub position: Point,
    pub trigger: TriggerKind,
}

/// The fixed description of every entity that one spawner creates.
#[derive(Clone, Copy, Debug, PartialEq, Eq, Structural)]
pub struct SpawnTemplate {
    pub shape: Shape,
    pub velocity: Point,
    pub tag: Classification,
    pub restitution: u32,
    pub can_sleep: bool,
}

impl SpawnTemplate {
    pub open spec fn body_at(self, p: Point) -> DynamicBody {
        DynamicBody {
            shape: self.shape,
            position: p,
            velocity: self.velocity,
            tag: self.tag,
            restitution: self.restitution,
            can_sleep: self.can_sleep,
        }
    }

    pub fn instantiate(&self, p: Point) -> (r: DynamicBody)
        ensures
            r == self.body_at(p),
    {
        DynamicBody {
            shape: self.shape,
            position: p,
            velocity: self.velocity,
            tag: self.tag,
            restitution: self.restitution,
            can_sleep: self.can_sleep,
        }
    }

    /// A user-spawned tire: a 9 by 2 unit box driving left at 20 units per second,
    /// bouncing with restitution 0.9, never asleep.
    pub fn tire() -> (r: SpawnTemplate)
        ensures
            r == tire_template(),
    {
        SpawnTemplate {
            shape: Shape::Rect { half_width: 4500, half_height: 1000 },
            velocity: Point { x: -20000, y: 0 },
            tag: Classification::UserSpawned,
            restitution: 900,
            can_sleep: false,
        }
    }
}

pub open spec fn tire_template() -> SpawnTemplate {
    SpawnTemplate {
        shape: Shape::Rect { half_width: 4500, half_height: 1000 },
        velocity: Point { x: -20000i32, y: 0i32 },
        tag: Classification::UserSpawned,
        restitution: 900,
        can_sleep: false,
    }
}

/// A tire placed at a clicked point.
#[derive(Clone, Copy, Debug, PartialEq, Eq, Structural)]
pub struct TDtire {
    pub body: DynamicBody,
}

impl TDtire {
    pub fn new(x: i32, y: i32) -> (r: TDtire)
        ensures
            r.body == tire_template().body_at(Point { x, y }),
    {
        TDtire { body: SpawnTemplate::tire().instantiate(Point { x, y }) }
    }
}

/// Turns qualifying input into new dynamic entities.
#[derive(Clone, Copy, Debug, PartialEq, Eq, Structural)]
pub struct SpawnController {
    pub trigger: TriggerKind,
    pub template: SpawnTemplate,
}

impl SpawnController {
    /// A left-button event of the kind this controller listens to.
    pub open spec fn qualifies(self, ev: InputEvent) -> bool {
        ev.button == MouseButton::Left && ev.trigger == self.trigger
    }

    pub fn new(trigger: TriggerKind, template: SpawnTemplate) -> (r: SpawnController)
        ensures
            r.trigger == trigger,
            r.template == template,
    {
        SpawnController { trigger, template }
    }

    /// Inserts one entity for a qualifying event and none for any other.
    pub fn on_input_event(&self, store: &mut EntityStore, ev: InputEvent) -> (r: Option<EntityHandle>)
        requires
            old(store).wf(),
        ensures
            final(store).wf(),
            self.qualifies(ev) ==> r == Some(EntityHandle { index: old(store)@.len() as usize })
                && final(store)@ == old(store)@.push(dynamic_entity(self.template.body_at(ev.position))),
            !self.qualifies(ev) ==> r is None && final(store)@ == old(store)@,
    {
        let left = match ev.button {
            MouseButton::Left => true,
            _ => false,
        };
        let same_kind = match (ev.trigger, self.trigger) {
            (TriggerKind::Edge, TriggerKind::Edge) => true,
            (TriggerKind::Level, TriggerKind::Level) => true,
            _ => false,
        };
        if left && same_kind {
            let body = self.template.instantiate(ev.position);
            Some(store.insert_dynamic(body))
        } else {
            None
        }
    }
}

} // verus!
