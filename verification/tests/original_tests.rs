use editor::scene::{Component, Entity, Scene};

struct TestComponent {
    a: i32,
    b: i32,
}

impl Component for TestComponent {
    fn name(&self) -> &'static str {
        "TestComponent"
    }

    fn event(&mut self, _entity: &mut Entity<Self>) {}

    fn update(&mut self, _entity: &mut Entity<Self>) {
        self.a += 1;
        self.b += 1;
    }
}

#[test]
fn test_entity_creation() {
    let mut scene = Scene::new();
    let id = scene.new_entity();

    if let Some(entity) = scene.get_entity(id) {
        entity.component(Box::new(TestComponent { a: 0, b: 10 }));
    }
}

#[test]
fn test_layout_supports_box_sizing() {}

#[test]
fn entity_component_is_found_by_name() {
    let mut scene = Scene::new();
    let id = scene.new_entity();
    assert_eq!(id, 0);
    assert!(scene.get_entity(1).is_none());
    scene.push_component(id, Box::new(TestComponent { a: 0, b: 10 }));
    scene.push_component(7, Box::new(TestComponent { a: 5, b: 5 }));
    let entity = scene.get_entity(id).unwrap();
    assert!(entity.name().is_none());
    let component = entity.get_component("TestComponent").unwrap();
    assert_eq!(component.a, 0);
    assert_eq!(component.b, 10);
    assert!(entity.get_component("Other").is_none());
    let second = scene.new_entity();
    assert_eq!(second, 1);
    assert!(scene.get_entity(second).unwrap().get_component("TestComponent").is_none());
}

#[test]
fn named_entity_keeps_its_name() {
    let entity: Entity<TestComponent> = Entity::new_named("player");
    assert_eq!(entity.name(), Some("player".to_string()));
}

struct Marker {
    id: u32,
}

impl Component for Marker {
    fn name(&self) -> &'static str {
        if self.id == 0 { "Base" } else { "Marker" }
    }

    fn event(&mut self, _entity: &mut Entity<Self>) {}

    fn update(&mut self, _entity: &mut Entity<Self>) {}
}

#[test]
fn first_component_with_the_name_is_found_and_changed_in_place() {
    let mut scene: Scene<Marker> = Scene::new();
    let id = scene.new_entity();
    scene.push_component(id, Box::new(Marker { id: 0 }));
    scene.push_component(id, Box::new(Marker { id: 1 }));
    scene.push_component(id, Box::new(Marker { id: 2 }));
    {
        let entity = scene.get_entity(id).unwrap();
        let found = entity.get_component("Marker").unwrap();
        assert_eq!(found.id, 1);
        found.id = 7;
    }
    let entity = scene.get_entity(id).unwrap();
    assert_eq!(entity.get_component("Marker").unwrap().id, 7);
    assert!(entity.get_component("Missing").is_none());
}
