use gl_wrap::component::{Component, ComponentData, ComponentKind, MeshComponent};
use gl_wrap::ecs::{ComponentStore, Entity, ECS};
use gl_wrap::scriptable::Scriptable;

/// A scriptable that counts its lifecycle calls.
struct Counter {
    created_for: Option<usize>,
    updates: u64,
}

impl Scriptable for Counter {
    fn create() -> Self {
        Counter { created_for: None, updates: 0 }
    }

    fn on_create(&mut self, entity: usize) {
        self.created_for = Some(entity);
    }

    fn on_update(&mut self, _entity: usize) {
        self.updates += 1;
    }
}

#[test]
fn it_works() {
    assert_eq!(2 + 2, 4);
}

#[test]
fn entity_new_is_empty() {
    let e = Entity::new("player");
    assert_eq!(e.name, "player");
    assert!(e.comp_index.is_empty());
    assert_eq!(e.index_of(ComponentKind::Mesh), None);
}

#[test]
fn add_components_yields_distinct_increasing_indices() {
    let mut ecs: ECS<Counter> = ECS::new();
    let e = ecs.new_entity("player");
    let i0 = ecs.add_component(e, ComponentKind::Mesh);
    let i1 = ecs.add_component(e, ComponentKind::Mesh);
    let i2 = ecs.add_component(e, ComponentKind::Mesh);
    assert_eq!((i0, i1, i2), (0, 1, 2));
}

#[test]
fn never_added_kind_returns_none() {
    let mut ecs: ECS<Counter> = ECS::new();
    let e = ecs.new_entity("player");
    assert!(ecs.get_component(e, ComponentKind::Mesh).is_none());
    assert!(ecs.get_component(e, ComponentKind::Script).is_none());
    ecs.add_component(e, ComponentKind::Mesh);
    assert!(ecs.get_component(e, ComponentKind::Mesh).is_some());
    assert!(ecs.get_component(e, ComponentKind::Script).is_none());
}

#[test]
fn update_invokes_each_component_once_per_tick() {
    let mut ecs: ECS<Counter> = ECS::new();
    let a = ecs.new_entity("a");
    let b = ecs.new_entity("b");
    ecs.add_component(a, ComponentKind::Script);
    ecs.add_component(b, ComponentKind::Script);
    ecs.add_component(a, ComponentKind::Mesh);

    ecs.update();
    ecs.update();

    for (entity, name) in [(a, "a"), (b, "b")] {
        match ecs.get_component(entity, ComponentKind::Script) {
            Some(ComponentData::Script(sc)) => {
                assert_eq!(sc.script.updates, 2, "script of {name}");
                assert_eq!(sc.entity, entity);
            }
            _ => panic!("missing script component on {name}"),
        }
    }
}

#[test]
fn script_on_create_sees_owning_entity() {
    let mut ecs: ECS<Counter> = ECS::new();
    let e = ecs.new_entity("scripted");
    ecs.add_component(e, ComponentKind::Script);
    match ecs.get_component(e, ComponentKind::Script) {
        Some(ComponentData::Script(sc)) => {
            assert_eq!(sc.script.created_for, Some(e));
            assert_eq!(sc.script.updates, 0);
        }
        _ => panic!("missing script component"),
    }
}

#[test]
fn duplicate_entity_names_overwrite_the_binding() {
    let mut ecs: ECS<Counter> = ECS::new();
    let first = ecs.new_entity("dup");
    let second = ecs.new_entity("dup");
    assert_eq!(first, 0);
    assert_eq!(second, 1);
    assert_eq!(ecs.entity_id("dup"), Some(second));
    assert_eq!(ecs.entities.len(), 2);
}

#[test]
fn delete_removes_the_named_entity_and_shifts_the_rest() {
    let mut ecs: ECS<Counter> = ECS::new();
    ecs.new_entity("a");
    ecs.new_entity("b");
    ecs.delete("a");
    assert_eq!(ecs.entities.len(), 1);
    assert_eq!(ecs.entities[0].name, "b");
    // The name map is left untouched, so the binding for "b" goes stale.
    assert_eq!(ecs.entity_id("b"), Some(1));
}

#[test]
fn configuring_a_mesh_component_through_the_system() {
    let mut ecs: ECS<Counter> = ECS::new();
    let e = ecs.new_entity("drawn");
    ecs.add_component(e, ComponentKind::Mesh);
    match ecs.get_component(e, ComponentKind::Mesh) {
        Some(ComponentData::Mesh(m)) => {
            m.add_mstm(7, 3, Some(5), None);
        }
        _ => panic!("missing mesh component"),
    }
    ecs.update();
    match ecs.get_component(e, ComponentKind::Mesh) {
        Some(ComponentData::Mesh(m)) => {
            let pending = m.pending();
            assert_eq!(pending.len(), 1);
            assert_eq!(pending[0].mesh, 7);
            assert_eq!(pending[0].shader, 3);
            assert_eq!(pending[0].texture, 5);
        }
        _ => panic!("missing mesh component"),
    }
}

#[test]
fn updaters_register_once_per_kind() {
    let mut ecs: ECS<Counter> = ECS::new();
    let e = ecs.new_entity("player");
    ecs.add_component(e, ComponentKind::Mesh);
    ecs.add_component(e, ComponentKind::Mesh);
    ecs.add_component(e, ComponentKind::Script);
    assert_eq!(ecs.updaters, vec![ComponentKind::Mesh, ComponentKind::Script]);
}

#[test]
fn updater_updates_only_its_own_kind() {
    let mut mesh_comp = MeshComponent::create(0);
    mesh_comp.add_mstm(1, 2, Some(3), None);
    let mut stores: Vec<ComponentStore<Counter>> = vec![
        ComponentStore { kind: ComponentKind::Mesh, items: vec![ComponentData::Mesh(mesh_comp)] },
        ComponentStore {
            kind: ComponentKind::Script,
            items: vec![ComponentData::create(ComponentKind::Script, 0)],
        },
    ];

    ECS::updater(&mut stores, ComponentKind::Script);
    match &stores[1].items[0] {
        ComponentData::Script(sc) => assert_eq!(sc.script.updates, 1),
        _ => panic!("script store corrupted"),
    }
    // The mesh store was not visited: its queued draw calls are still
    // empty although an update would have queued one.
    match &stores[0].items[0] {
        ComponentData::Mesh(m) => assert!(m.pending().is_empty()),
        _ => panic!("mesh store corrupted"),
    }

    ECS::updater(&mut stores, ComponentKind::Mesh);
    match &stores[0].items[0] {
        ComponentData::Mesh(m) => assert_eq!(m.pending().len(), 1),
        _ => panic!("mesh store corrupted"),
    }
}

#[test]
fn mesh_component_update_zips_to_the_shortest_list() {
    let mut m = MeshComponent::create(0);
    // A mesh with no texture contributes no draw call: the texture list
    // stays shorter than the others.
    m.add_mstm(1, 10, None, None);
    m.update();
    assert!(m.pending().is_empty());
    m.add_mstm(2, 20, Some(100), None);
    m.update();
    let pending = m.pending();
    assert_eq!(pending.len(), 1);
    assert_eq!(pending[0].mesh, 1);
    assert_eq!(pending[0].shader, 10);
    assert_eq!(pending[0].texture, 100);
}

#[test]
fn mesh_component_set_shader_replaces_every_shader() {
    let mut m = MeshComponent::create(0);
    m.add_mstm(1, 10, Some(100), None);
    m.add_mstm(2, 20, Some(200), None);
    m.set_shader(77);
    assert_eq!(m.shaders, vec![77, 77]);
    assert_eq!(m.meshes, vec![1, 2]);
    assert_eq!(m.textures(), &vec![100, 200]);
}

#[test]
fn mesh_component_set_translate_moves_every_transform() {
    let one = 0x3F80_0000u32;
    let mut m = MeshComponent::create(0);
    m.add_mstm(1, 10, Some(100), None);
    m.add_mstm(2, 20, Some(200), None);
    m.set_translate(5, 6, 7);
    for t in &m.transforms {
        assert_eq!((t.translation.x, t.translation.y, t.translation.z), (5, 6, 7));
        // Rotations and scales are untouched.
        assert_eq!(t.scale.x, one);
        assert_eq!(t.rotation.w, one);
    }
}
