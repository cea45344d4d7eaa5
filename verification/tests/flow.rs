use isle_ecs::ecs::{Res, ResMut, System, SystemSet};
use isle_ecs::entity::Entity;
use isle_ecs::executor::Executor;
use isle_ecs::flow::{Flow, FlowBuilder, PRE_RUN, RUN};
use isle_ecs::schedule::{Schedule, Scheduler};
use isle_ecs::world::{Command, World};

const KEY_COUNTER: u64 = 1;
const KEY_R: u64 = 2;
const KEY_SEEN_SAME_STAGE: u64 = 3;
const KEY_SEEN_NEXT_STAGE: u64 = 4;

#[derive(Debug, PartialEq, Clone, Copy)]
enum Val {
    Counter(u32),
    Flag(bool),
}

enum Sys {
    Count,
    QueueR,
    RecordSameStage,
    RecordNextStage,
}

impl System<Val> for Sys {
    fn run(&mut self, world: &mut World<Val>) {
        match self {
            Sys::Count => match world.get_resource_mut(KEY_COUNTER) {
                Some(slot) => {
                    if let Val::Counter(n) = *slot {
                        *slot = Val::Counter(n + 1);
                    }
                }
                None => panic!("resource for the counting system was never stored"),
            },
            Sys::QueueR => {
                world.queue_command(Command::StoreResource(KEY_R, Val::Flag(true)));
            }
            Sys::RecordSameStage => {
                let seen = world.get_resource(KEY_R).is_some();
                world.store_resource(KEY_SEEN_SAME_STAGE, Val::Flag(seen));
            }
            Sys::RecordNextStage => {
                let seen = world.get_resource(KEY_R).is_some();
                world.store_resource(KEY_SEEN_NEXT_STAGE, Val::Flag(seen));
            }
        }
    }
}

fn fresh_flow() -> Flow<Val, Sys> {
    let builder: FlowBuilder<Val, Sys> = Flow::new();
    builder
        .with_scheduler(Scheduler)
        .with_executor(Executor)
        .build()
}

#[test]
fn counter_counts_three_ticks() {
    let mut flow = fresh_flow();
    flow.add_resource(KEY_COUNTER, Val::Counter(0));
    flow.add_system(RUN, Sys::Count, vec![ResMut(KEY_COUNTER).signature()])
        .unwrap();

    flow.spin();
    flow.spin();
    flow.spin();

    assert_eq!(
        *flow.get_resource(KEY_COUNTER).unwrap(),
        Val::Counter(3)
    );
}

#[test]
fn queued_command_lands_between_stages() {
    let mut flow = fresh_flow();
    flow.add_system(PRE_RUN, Sys::QueueR, vec![]).unwrap();
    flow.add_system(
        PRE_RUN,
        Sys::RecordSameStage,
        vec![Res(KEY_R).signature()],
    )
    .unwrap();
    flow.add_system(RUN, Sys::RecordNextStage, vec![Res(KEY_R).signature()])
        .unwrap();

    flow.spin();

    // pending systems of the queueing stage did not see the resource
    assert_eq!(
        *flow.get_resource(KEY_SEEN_SAME_STAGE).unwrap(),
        Val::Flag(false)
    );
    // the next stage of the same tick did
    assert_eq!(
        *flow.get_resource(KEY_SEEN_NEXT_STAGE).unwrap(),
        Val::Flag(true)
    );
    assert_eq!(*flow.get_resource(KEY_R).unwrap(), Val::Flag(true));
}

#[test]
fn conflicting_registration_fails_at_registration() {
    let mut flow = fresh_flow();
    let r = flow.add_system(
        RUN,
        Sys::Count,
        vec![
            ResMut(KEY_COUNTER).signature(),
            Res(KEY_COUNTER).signature(),
        ],
    );
    assert_eq!(r, Err(KEY_COUNTER));

    // nothing was registered: ticking does not run the system
    flow.add_resource(KEY_COUNTER, Val::Counter(0));
    flow.spin();
    assert_eq!(
        *flow.get_resource(KEY_COUNTER).unwrap(),
        Val::Counter(0)
    );
}

#[test]
fn run_once_systems_run_exactly_once() {
    let mut flow = fresh_flow();
    flow.add_resource(KEY_COUNTER, Val::Counter(0));
    flow.run_once(Sys::Count, vec![ResMut(KEY_COUNTER).signature()])
        .unwrap();

    flow.spin();
    flow.spin();
    flow.spin();

    assert_eq!(
        *flow.get_resource(KEY_COUNTER).unwrap(),
        Val::Counter(1)
    );
}

#[test]
fn pushed_stage_runs_each_tick() {
    let mut flow = fresh_flow();
    flow.add_resource(KEY_COUNTER, Val::Counter(0));
    let stage = flow.push_set();
    flow.add_system(stage, Sys::Count, vec![ResMut(KEY_COUNTER).signature()])
        .unwrap();

    flow.spin();
    flow.spin();

    assert_eq!(
        *flow.get_resource(KEY_COUNTER).unwrap(),
        Val::Counter(2)
    );
}

#[test]
fn flow_mints_fresh_entities() {
    let mut flow = fresh_flow();
    assert_eq!(flow.make_entity(), Entity(0, 0));
    assert_eq!(flow.make_entity(), Entity(0, 1));
}

#[test]
fn flow_stores_components_in_its_world() {
    let mut flow = fresh_flow();
    let entity = flow.make_entity();
    flow.add_component(entity, KEY_R, Val::Flag(true));
    assert_eq!(
        *flow.get_world().get_component(&entity, KEY_R).unwrap(),
        Val::Flag(true)
    );
}

#[test]
fn schedule_hands_out_registration_order() {
    let mut set: SystemSet<Sys> = SystemSet::new();
    set.add_system(Sys::Count, vec![]).unwrap();
    set.add_system(Sys::QueueR, vec![]).unwrap();

    let mut schedule = Schedule::from_system_set(&set);
    assert_eq!(schedule.get_next(), Some(0));
    schedule.report_done(0);
    assert_eq!(schedule.get_next(), Some(1));
    schedule.report_done(1);
    assert_eq!(schedule.get_next(), None);
    assert_eq!(schedule.get_next(), None);
}

#[test]
fn flow_resource_mutation_is_observed() {
    let mut flow = fresh_flow();
    flow.add_resource(KEY_COUNTER, Val::Counter(47));

    let slot = flow.get_resource_mut(KEY_COUNTER).unwrap();
    *slot = Val::Counter(42);

    assert_eq!(
        *flow.get_resource(KEY_COUNTER).unwrap(),
        Val::Counter(42)
    );
}

fn core_plugin(builder: FlowBuilder<Val, Sys>) -> FlowBuilder<Val, Sys> {
    builder.with_scheduler(Scheduler).with_executor(Executor)
}

#[test]
fn plugin_wires_the_builder() {
    let mut flow: Flow<Val, Sys> = Flow::new().with_plugin(core_plugin).build();
    flow.add_resource(KEY_COUNTER, Val::Counter(0));
    flow.add_system(RUN, Sys::Count, vec![ResMut(KEY_COUNTER).signature()])
        .unwrap();
    flow.spin();
    assert_eq!(*flow.get_resource(KEY_COUNTER).unwrap(), Val::Counter(1));
}

#[test]
fn build_carries_the_accumulated_state() {
    let builder: FlowBuilder<Val, Sys> = Flow::new();
    let mut flow = builder
        .with_resource(KEY_COUNTER, Val::Counter(7))
        .with_scheduler(Scheduler)
        .with_executor(Executor)
        .build();

    // the built flow owns the builder's world, not a fresh one
    assert_eq!(*flow.get_resource(KEY_COUNTER).unwrap(), Val::Counter(7));
    // and its entity counters start at zero
    assert_eq!(flow.make_entity(), Entity(0, 0));
}
