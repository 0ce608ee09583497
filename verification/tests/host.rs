//! The library at work in a bevy app: the manager as a resource, the sweep as
//! a system of its own stage, and insertions queued as commands.

use bevy::app::{App, CoreStage};
use bevy::ecs::component::{Component, TableStorage};
use bevy::ecs::entity::Entity;
use bevy::ecs::schedule::{StageLabel, SystemStage};
use bevy::ecs::system::{Commands, Query, ResMut, Resource};
use bevy::ecs::world::{FromWorld, Mut, World};
use ref_comp::{
    FromWorldFactory, InsertCommand, InsertStep, RefCompBuilder, RefCompHandle, RefCompHandleId,
    RefCompServer,
};

type InsertFn<T> = fn(&mut World, Entity) -> T;
type EditFn<T> = fn(&mut World, Entity, &mut T);
type DeleteFn = fn(&mut Commands, Entity);

struct Server(RefCompServer<DeleteFn>);

impl Resource for Server {}

impl Default for Server {
    fn default() -> Self {
        Server(RefCompServer::new())
    }
}

struct Sweep;

impl StageLabel for Sweep {
    fn as_str(&self) -> &'static str {
        "DespawnStage"
    }
}

/// A component with a tag that no other component of the app has.
trait Tagged: Component {
    fn tag() -> String;
}

fn tag<T: Tagged>() -> String {
    T::tag()
}

fn delete_component<T: Component>(commands: &mut Commands, entity: Entity) {
    commands.entity(entity).remove::<T>();
}

trait Factory<T> {
    fn construct(self, world: &mut World, entity: Entity) -> T;
}

impl<T> Factory<T> for InsertFn<T> {
    fn construct(self, world: &mut World, entity: Entity) -> T {
        self(world, entity)
    }
}

impl<T: FromWorld> Factory<T> for FromWorldFactory {
    fn construct(self, world: &mut World, _entity: Entity) -> T {
        T::from_world(world)
    }
}

fn perform<T: Component, F: Factory<T>>(
    world: &mut World,
    entity: Entity,
    step: InsertStep<F, EditFn<T>>,
) {
    match step {
        InsertStep::Construct(factory) => {
            let comp = factory.construct(world, entity);
            world.entity_mut(entity).insert(comp);
        }
        InsertStep::Edit(edit) => {
            if let Some(mut comp) = world.entity_mut(entity).remove::<T>() {
                edit(world, entity, &mut comp);
                world.entity_mut(entity).insert(comp);
            }
        }
        InsertStep::Keep => {}
    }
}

fn carry_out<T: Component, F: Factory<T>>(world: &mut World, command: InsertCommand<F, EditFn<T>>) {
    let entity = Entity::from_bits(command.entity);
    let present = world.entity(entity).contains::<T>();
    perform(world, entity, command.resolve(present));
}

fn insert_ref_comp<T: Tagged>(
    server: &mut Server,
    commands: &mut Commands,
    entity: Entity,
    insert_fn: InsertFn<T>,
    edit_fn: Option<EditFn<T>>,
) -> RefCompHandle<T> {
    let (handle, command) = server.0.insert_ref_comp(
        entity.to_bits(),
        tag::<T>(),
        delete_component::<T> as DeleteFn,
        insert_fn,
        edit_fn,
    );
    commands.add(move |world: &mut World| carry_out(world, command));
    handle
}

fn insert_ref_comp_fw<T: Tagged + FromWorld>(
    server: &mut Server,
    commands: &mut Commands,
    entity: Entity,
    edit_fn: Option<EditFn<T>>,
) -> RefCompHandle<T> {
    let (handle, command) = server.0.insert_ref_comp_fw(
        entity.to_bits(),
        tag::<T>(),
        delete_component::<T> as DeleteFn,
        edit_fn,
    );
    commands.add(move |world: &mut World| carry_out(world, command));
    handle
}

fn world_insert_ref_comp<T: Tagged>(
    world: &mut World,
    entity: Entity,
    insert_fn: InsertFn<T>,
    edit_fn: Option<EditFn<T>>,
) -> RefCompHandle<T> {
    world.resource_scope(|world, mut server: Mut<Server>| {
        let present = world.entity(entity).contains::<T>();
        let (handle, step) = server.0.inner_insert_ref_comp(
            present,
            entity.to_bits(),
            tag::<T>(),
            delete_component::<T> as DeleteFn,
            insert_fn,
            edit_fn,
        );
        perform(world, entity, step);
        handle
    })
}

fn build<T: Tagged>(
    builder: &RefCompBuilder<T, InsertFn<T>, EditFn<T>>,
    commands: &mut Commands,
    server: &mut Server,
) -> RefCompHandle<T> {
    let (handle, command) = builder.build(&mut server.0, delete_component::<T> as DeleteFn);
    commands.add(move |world: &mut World| carry_out(world, command));
    handle
}

fn delete_unreferenced_components(
    mut server: ResMut<Server>,
    owners: Query<Entity>,
    mut commands: Commands,
) {
    let plan = server
        .0
        .delete_unreferenced_components(|bits: u64| owners.get(Entity::from_bits(bits)).is_ok());
    for despawn in plan {
        (despawn.delete)(&mut commands, Entity::from_bits(despawn.entity));
    }
}

fn new_app() -> App {
    let mut app = App::new();
    app.init_resource::<Server>()
        .add_stage_after(CoreStage::Update, Sweep, SystemStage::parallel())
        .add_system_to_stage(Sweep, delete_unreferenced_components);
    app
}

fn count_of<T: Tagged>(app: &App, entity: Entity) -> usize {
    let id = RefCompHandleId::new(entity.to_bits(), tag::<T>());
    app.world.resource::<Server>().0.ref_count(&id)
}

#[derive(Default)]
struct Foo;

impl Component for Foo {
    type Storage = TableStorage;
}

impl Tagged for Foo {
    fn tag() -> String {
        "host::Foo".to_string()
    }
}

struct EntityRef(Entity);

impl Resource for EntityRef {}

struct FooHandleRes1(RefCompHandle<Foo>);

impl Resource for FooHandleRes1 {}

struct FooHandleRes2(RefCompHandle<Foo>);

impl Resource for FooHandleRes2 {}

#[derive(Default)]
struct Bar {
    string: String,
    integer: u32,
}

impl Component for Bar {
    type Storage = TableStorage;
}

impl Tagged for Bar {
    fn tag() -> String {
        "host::Bar".to_string()
    }
}

struct BarHandleRes1(RefCompHandle<Bar>);

impl Resource for BarHandleRes1 {}

struct BarHandleRes2(RefCompHandle<Bar>);

impl Resource for BarHandleRes2 {}

/// Tests if the server will insert components that do not currently exist,
/// and if it will remove components that are no longer referenced
#[test]
fn test_insert() {
    let mut app = new_app();

    app.add_startup_system(|mut commands: Commands, mut ref_comp_server: ResMut<Server>| {
        let foo_ent = commands.spawn_empty().id();
        commands.insert_resource(EntityRef(foo_ent));

        let handle = insert_ref_comp_fw::<Foo>(&mut ref_comp_server, &mut commands, foo_ent, None);
        commands.insert_resource(FooHandleRes1(handle));
    });

    app.update();

    let world = &mut app.world;
    let foo_ent = world.resource::<EntityRef>();
    assert!(world.entity(foo_ent.0).contains::<Foo>());

    world.remove_resource::<FooHandleRes1>();
    app.update();

    let world = &mut app.world;
    let foo_ent = world.resource::<EntityRef>();
    assert!(!world.entity(foo_ent.0).contains::<Foo>())
}

/// Tests if the server will not delete components if they are still referenced by a handle.
#[test]
fn test_multi_remove() {
    let mut app = new_app();

    app.add_startup_system(|mut commands: Commands, mut ref_comp_server: ResMut<Server>| {
        let foo_ent = commands.spawn_empty().id();
        commands.insert_resource(EntityRef(foo_ent));

        let handle = insert_ref_comp_fw::<Foo>(&mut ref_comp_server, &mut commands, foo_ent, None);
        commands.insert_resource(FooHandleRes1(handle.clone()));
        commands.insert_resource(FooHandleRes2(handle));
    });

    app.update();

    let world = &mut app.world;
    let foo_ent = world.resource::<EntityRef>();
    assert!(world.entity(foo_ent.0).contains::<Foo>());

    world.remove_resource::<FooHandleRes1>();
    app.update();

    let world = &mut app.world;
    let foo_ent = world.resource::<EntityRef>();
    assert!(world.entity(foo_ent.0).contains::<Foo>())
}

/// Tests to see if we can add a function to return a new copy of the component
/// to insert for the server.
#[test]
fn test_insert_function() {
    let mut app = new_app();

    app.add_startup_system(|mut commands: Commands, mut ref_comp_server: ResMut<Server>| {
        let entity = commands.spawn_empty().id();
        commands.insert_resource(EntityRef(entity));

        let handle = insert_ref_comp::<Bar>(
            &mut ref_comp_server,
            &mut commands,
            entity,
            |_world, _entity| Bar {
                string: "I am a test string!".to_string(),
                integer: 42,
            },
            None,
        );
        commands.insert_resource(BarHandleRes1(handle));
    });

    app.update();

    let world = &mut app.world;
    let bar_ent = world.resource::<EntityRef>();
    let bar = world.entity(bar_ent.0).get::<Bar>().unwrap();
    assert!(bar.integer == 42);
    assert!(bar.string == "I am a test string!");

    world.remove_resource::<BarHandleRes1>();
    app.update();

    let world = &mut app.world;
    let bar_ent = world.resource::<EntityRef>();
    assert!(!world.entity(bar_ent.0).contains::<Bar>())
}

/// Tests to see if the insert fn will run if there is already a component present.
/// Note: It should not.
#[test]
fn test_insert_function_overwrite() {
    let mut app = new_app();

    app.add_startup_system(|mut commands: Commands, mut ref_comp_server: ResMut<Server>| {
        let entity = commands.spawn_empty().id();
        commands.insert_resource(EntityRef(entity));

        let handle = insert_ref_comp::<Bar>(
            &mut ref_comp_server,
            &mut commands,
            entity,
            |_world, _entity| Bar {
                string: "I am a test string!".to_string(),
                integer: 42,
            },
            None,
        );
        commands.insert_resource(BarHandleRes1(handle.clone()));
    });

    app.update();

    let world = &mut app.world;
    let bar_ent = world.resource::<EntityRef>().0;
    let handle = world_insert_ref_comp::<Bar>(
        world,
        bar_ent,
        |_world, _entity| Bar {
            string: "I have been changed!".to_string(),
            integer: 69,
        },
        None,
    );

    world.insert_resource(BarHandleRes2(handle));

    app.update();

    let world = &mut app.world;
    let bar_ent = world.resource::<EntityRef>();
    let bar = world.entity(bar_ent.0).get::<Bar>().unwrap();
    assert!(bar.integer == 42);
    assert!(bar.string == "I am a test string!");

    world.remove_resource::<BarHandleRes1>();

    app.update();

    let world = &mut app.world;
    let bar_ent = world.resource::<EntityRef>();
    assert!(world.entity(bar_ent.0).contains::<Bar>())
}

/// Tests to see if we can add an edit function to the server that runs if
/// there is already a component present.
#[test]
fn test_insert_edit_function() {
    let mut app = new_app();

    app.add_startup_system(|mut commands: Commands, mut ref_comp_server: ResMut<Server>| {
        let entity = commands.spawn_empty().id();
        commands.insert_resource(EntityRef(entity));

        let handle = insert_ref_comp::<Bar>(
            &mut ref_comp_server,
            &mut commands,
            entity,
            |_world, _entity| Bar {
                string: "I am a test string!".to_string(),
                integer: 42,
            },
            None,
        );
        commands.insert_resource(BarHandleRes2(handle.clone()));
    });

    app.update();

    let world = &mut app.world;
    let bar_ent = world.resource::<EntityRef>().0;
    let handle = world_insert_ref_comp::<Bar>(
        world,
        bar_ent,
        |_world, _entity| Bar {
            string: "I have been changed!".to_string(),
            integer: 69,
        },
        Some(|_world, _entity, bar| {
            bar.string = "I have been changed! For good.".to_string();
            bar.integer = 12;
        }),
    );

    world.insert_resource(BarHandleRes1(handle));

    app.update();

    let world = &mut app.world;
    let bar_ent = world.resource::<EntityRef>();
    let bar = world.entity(bar_ent.0).get::<Bar>().unwrap();
    assert!(bar.integer == 12);
    assert!(bar.string == "I have been changed! For good.");
}

#[test]
fn test_builder() {
    let mut app = new_app();

    app.add_startup_system(|mut commands: Commands, mut ref_comp_server: ResMut<Server>| {
        let entity = commands.spawn_empty().id();
        commands.insert_resource(EntityRef(entity));

        let builder: RefCompBuilder<Bar, InsertFn<Bar>, EditFn<Bar>> =
            RefCompBuilder::new(entity.to_bits(), tag::<Bar>(), |_world, _entity| Bar {
                string: "I am a test string!".to_string(),
                integer: 42,
            });
        let handle = build(&builder, &mut commands, &mut ref_comp_server);
        commands.insert_resource(BarHandleRes1(handle.clone()));
    });

    app.update();

    let world = &mut app.world;
    let bar_ent = world.resource::<EntityRef>();
    let bar = world.entity(bar_ent.0).get::<Bar>().unwrap();
    assert!(bar.integer == 42);
    assert!(bar.string == "I am a test string!");

    world.remove_resource::<BarHandleRes1>();
    app.update();

    let world = &mut app.world;
    let bar_ent = world.resource::<EntityRef>();
    assert!(!world.entity(bar_ent.0).contains::<Bar>())
}

/// A resource is held by one handle, then by two, then by one, then by none.
#[test]
fn scenario_hold_copy_and_let_go() {
    let mut app = new_app();
    let entity = app.world.spawn_empty().id();
    let handle = world_insert_ref_comp::<Bar>(
        &mut app.world,
        entity,
        |_world, _entity| Bar { string: "x".to_string(), integer: 42 },
        None,
    );
    app.update();
    assert_eq!(count_of::<Bar>(&app, entity), 1);
    let bar = app.world.entity(entity).get::<Bar>().unwrap();
    assert_eq!((bar.string.as_str(), bar.integer), ("x", 42));

    let copy = handle.clone();
    app.update();
    assert_eq!(count_of::<Bar>(&app, entity), 2);

    drop(handle);
    app.update();
    assert_eq!(count_of::<Bar>(&app, entity), 1);
    assert!(app.world.entity(entity).contains::<Bar>());
    let bar = app.world.entity(entity).get::<Bar>().unwrap();
    assert_eq!((bar.string.as_str(), bar.integer), ("x", 42));

    drop(copy);
    app.update();
    assert_eq!(count_of::<Bar>(&app, entity), 0);
    assert!(!app.world.entity(entity).contains::<Bar>());
}

/// A handle made after the last one was dropped, with no sweep in between,
/// keeps the resource.
#[test]
fn handle_made_again_before_the_sweep_keeps_the_resource() {
    let mut app = new_app();
    let entity = app.world.spawn_empty().id();
    let first = world_insert_ref_comp::<Bar>(
        &mut app.world,
        entity,
        |_world, _entity| Bar { string: "x".to_string(), integer: 42 },
        None,
    );
    drop(first);
    let second = world_insert_ref_comp::<Bar>(
        &mut app.world,
        entity,
        |_world, _entity| panic!("the resource exists"),
        None,
    );
    app.update();
    assert!(app.world.entity(entity).contains::<Bar>());
    assert_eq!(count_of::<Bar>(&app, entity), 1);
    let bar = app.world.entity(entity).get::<Bar>().unwrap();
    assert_eq!((bar.string.as_str(), bar.integer), ("x", 42));
    drop(second);
    app.update();
    assert!(!app.world.entity(entity).contains::<Bar>());
}

/// A second factory for a resource that exists never runs.
#[test]
fn scenario_second_factory_never_runs() {
    let mut app = new_app();
    let entity = app.world.spawn_empty().id();
    let first = world_insert_ref_comp::<Bar>(
        &mut app.world,
        entity,
        |_world, _entity| Bar { string: "x".to_string(), integer: 42 },
        None,
    );
    app.update();
    let second = world_insert_ref_comp::<Bar>(
        &mut app.world,
        entity,
        |_world, _entity| panic!("the second factory ran"),
        None,
    );
    app.update();
    let bar = app.world.entity(entity).get::<Bar>().unwrap();
    assert_eq!((bar.string.as_str(), bar.integer), ("x", 42));
    assert_eq!(count_of::<Bar>(&app, entity), 2);
    drop((first, second));
}

/// An edit changes the resource that exists in place, and exactly as written.
#[test]
fn scenario_edit_in_place() {
    let mut app = new_app();
    let entity = app.world.spawn_empty().id();
    let first = world_insert_ref_comp::<Bar>(
        &mut app.world,
        entity,
        |_world, _entity| Bar { string: "x".to_string(), integer: 42 },
        None,
    );
    app.update();
    let second = world_insert_ref_comp::<Bar>(
        &mut app.world,
        entity,
        |_world, _entity| panic!("the factory ran on a resource that exists"),
        Some(|_world, _entity, bar| {
            bar.integer += 1;
        }),
    );
    let bar = app.world.entity(entity).get::<Bar>().unwrap();
    assert_eq!((bar.string.as_str(), bar.integer), ("x", 43));
    drop((first, second));
}

/// Many queued requests for one resource construct it once.
#[test]
fn queued_requests_construct_once() {
    let mut app = new_app();

    app.add_startup_system(|mut commands: Commands, mut ref_comp_server: ResMut<Server>| {
        let entity = commands.spawn_empty().id();
        commands.insert_resource(EntityRef(entity));
        let first = insert_ref_comp::<Bar>(
            &mut ref_comp_server,
            &mut commands,
            entity,
            |_world, _entity| Bar { string: "first".to_string(), integer: 1 },
            None,
        );
        let second = insert_ref_comp::<Bar>(
            &mut ref_comp_server,
            &mut commands,
            entity,
            |_world, _entity| Bar { string: "second".to_string(), integer: 2 },
            None,
        );
        commands.insert_resource(BarHandleRes1(first));
        commands.insert_resource(BarHandleRes2(second));
    });

    app.update();

    let entity = app.world.resource::<EntityRef>().0;
    let bar = app.world.entity(entity).get::<Bar>().unwrap();
    assert_eq!((bar.string.as_str(), bar.integer), ("first", 1));
    assert_eq!(count_of::<Bar>(&app, entity), 2);
}

/// A resource whose owner is gone is passed over by the sweep.
#[test]
fn sweep_after_the_owner_is_gone() {
    let mut app = new_app();
    let entity = app.world.spawn_empty().id();
    let handle = world_insert_ref_comp::<Bar>(
        &mut app.world,
        entity,
        |_world, _entity| Bar { string: "x".to_string(), integer: 42 },
        None,
    );
    app.update();
    assert!(app.world.despawn(entity));
    drop(handle);
    app.update();
    assert_eq!(count_of::<Bar>(&app, entity), 0);
    assert!(app.world.get_entity(entity).is_none());
}
