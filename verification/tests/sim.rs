use combat_core::ai::{AIControl, StandardAI};
use combat_core::attack::AttackSystem;
use combat_core::comp::{Cooldown, Entity, Health, Model, Name, Position, Target};
use combat_core::dispatcher::{Dispatcher, DispatcherBuilder, SystemKind, may_run_concurrently};
use combat_core::events::AttackReport;
use combat_core::monster::{BuildError, ComponentValue, MonsterBuilder, MonsterBuilderExt};
use combat_core::movement::MovementSystem;
use combat_core::random::RandomSource;
use combat_core::targeting::TargetingSystem;
use combat_core::world::World;

fn spawn(world: &mut World, name: &str, x: i32, y: i32, hp: u32) -> Entity {
    world
        .create_monster()
        .with(ComponentValue::Name(Name(String::from(name))))
        .with(ComponentValue::Ai(AIControl(StandardAI)))
        .with(ComponentValue::Position(Position(x, y)))
        .with(ComponentValue::Health(Health(hp)))
        .with(ComponentValue::Model(Model(0)))
        .build(world)
}

fn standard_dispatcher() -> Dispatcher {
    DispatcherBuilder::new()
        .with(SystemKind::Targeting, String::from("targeting"), vec![])
        .with(SystemKind::Movement, String::from("movement"), vec![0])
        .with(SystemKind::Attack, String::from("attack"), vec![1])
        .build()
}

fn position_of(world: &World, e: Entity) -> (i32, i32) {
    let p = world.positions.get_copy(e.index).expect("entity has a position");
    (p.0, p.1)
}

fn health_of(world: &World, e: Entity) -> u32 {
    world.healths.get_copy(e.index).expect("entity has health").0
}

fn target_of(world: &World, e: Entity) -> Option<Entity> {
    world.targets.get_copy(e.index).expect("entity has a target slot").0
}

fn check_report_consistency(r: &AttackReport) {
    assert!(r.damage < 10);
    assert!(r.actor_health > 0, "the dead never act");
    let expected_post = if r.damage >= r.pre_health { 0 } else { r.pre_health - r.damage };
    assert_eq!(r.post_health, expected_post);
    assert_eq!(r.lethal, r.pre_health > 0 && r.damage >= r.pre_health);
}

#[test]
fn builder_gate_names_first_missing_component() {
    let mut world = World::new();
    let empty = MonsterBuilder::new();
    assert_eq!(empty.try_build(&mut world), Err(BuildError::MissingModel));
    assert_eq!(world.len(), 0);

    let b = MonsterBuilder::new().with(ComponentValue::Model(Model(7)));
    assert_eq!(b.try_build(&mut world), Err(BuildError::MissingPosition));

    let b = MonsterBuilder::new()
        .with(ComponentValue::Model(Model(7)))
        .with(ComponentValue::Position(Position(1, 2)));
    assert_eq!(b.try_build(&mut world), Err(BuildError::MissingHealth));

    let b = MonsterBuilder::new()
        .with(ComponentValue::Model(Model(7)))
        .with(ComponentValue::Position(Position(1, 2)))
        .with(ComponentValue::Health(Health(100)));
    assert_eq!(b.try_build(&mut world), Err(BuildError::MissingAi));

    // a violation admits nothing: no half-valid entity
    assert_eq!(world.len(), 0);

    let b = MonsterBuilder::new()
        .with(ComponentValue::Model(Model(7)))
        .with(ComponentValue::Position(Position(1, 2)))
        .with(ComponentValue::Health(Health(100)))
        .with(ComponentValue::Ai(AIControl(StandardAI)));
    let ent = b.try_build(&mut world).expect("complete monster is admitted");
    assert_eq!(world.len(), 1);
    assert_eq!(ent.index, 0);
    // omitted target and cooldown default to unset and zero
    assert_eq!(target_of(&world, ent), None);
    assert_eq!(world.cooldowns.get_copy(ent.index).expect("cooldown").0, 0);
    assert_eq!(health_of(&world, ent), 100);
    assert_eq!(position_of(&world, ent), (1, 2));
    assert_eq!(world.models.get_copy(ent.index).expect("model").0, 7);
}

#[test]
fn targeting_pairs_two_entities() {
    let mut world = World::new();
    let mut rng = RandomSource::new();
    let a = spawn(&mut world, "Rat #1", 0, 0, 100);
    let b = spawn(&mut world, "Rat #2", 0, 5, 100);
    TargetingSystem.run(&mut world, &mut rng);
    // with exactly one candidate each, the choice is forced
    assert_eq!(target_of(&world, a), Some(b));
    assert_eq!(target_of(&world, b), Some(a));
}

#[test]
fn targeting_never_overrides_live_target() {
    let mut world = World::new();
    let mut rng = RandomSource::new();
    let a = spawn(&mut world, "Rat #1", 0, 0, 100);
    let b = spawn(&mut world, "Rat #2", 0, 5, 100);
    let _c = spawn(&mut world, "Goblin #1", 5, 5, 100);
    world.targets.put(a.index, Target(Some(b)));
    for _ in 0..20 {
        TargetingSystem.run(&mut world, &mut rng);
        // the live target stays, however the other entities choose
        assert_eq!(target_of(&world, a), Some(b));
    }
}

#[test]
fn targeting_replaces_dead_target() {
    let mut world = World::new();
    let mut rng = RandomSource::new();
    let a = spawn(&mut world, "Rat #1", 0, 0, 100);
    let b = spawn(&mut world, "Rat #2", 0, 5, 0);
    let c = spawn(&mut world, "Goblin #1", 5, 5, 100);
    world.targets.put(a.index, Target(Some(b)));
    TargetingSystem.run(&mut world, &mut rng);
    // the stale target is replaced by the only living candidate
    assert_eq!(target_of(&world, a), Some(c));
}

#[test]
fn movement_closes_one_unit_per_axis() {
    let mut world = World::new();
    let a = spawn(&mut world, "Rat #1", 0, 0, 100);
    let b = spawn(&mut world, "Rat #2", 0, 5, 100);
    world.targets.put(a.index, Target(Some(b)));
    world.targets.put(b.index, Target(Some(a)));
    MovementSystem.run(&mut world);
    assert_eq!(position_of(&world, a), (0, 1));
    assert_eq!(position_of(&world, b), (0, 4));
}

#[test]
fn movement_leaves_near_axis_alone() {
    let mut world = World::new();
    let a = spawn(&mut world, "Rat #1", 0, 0, 100);
    let b = spawn(&mut world, "Rat #2", 5, 1, 100);
    world.targets.put(a.index, Target(Some(b)));
    MovementSystem.run(&mut world);
    // the y distance is already within one unit, so only x moves
    assert_eq!(position_of(&world, a), (1, 0));
}

#[test]
fn movement_stops_when_adjacent() {
    let mut world = World::new();
    let a = spawn(&mut world, "Rat #1", 0, 0, 100);
    let b = spawn(&mut world, "Rat #2", 1, 1, 100);
    world.targets.put(a.index, Target(Some(b)));
    world.targets.put(b.index, Target(Some(a)));
    MovementSystem.run(&mut world);
    assert_eq!(position_of(&world, a), (0, 0));
    assert_eq!(position_of(&world, b), (1, 1));
}

#[test]
fn attack_adjacent_pair_trades_bounded_blows() {
    let mut world = World::new();
    let mut rng = RandomSource::new();
    let a = spawn(&mut world, "Rat #1", 0, 0, 100);
    let b = spawn(&mut world, "Rat #2", 0, 1, 100);
    world.targets.put(a.index, Target(Some(b)));
    world.targets.put(b.index, Target(Some(a)));
    let reports = AttackSystem.run(&mut world, &mut rng);
    assert_eq!(reports.len(), 2);
    assert_eq!(reports[0].actor, a);
    assert_eq!(reports[0].target, b);
    assert_eq!(reports[1].actor, b);
    assert_eq!(reports[1].target, a);
    for r in &reports {
        assert_eq!(r.pre_health, 100);
        check_report_consistency(r);
    }
    // the first actor strikes at full health; the second has already been hit
    assert_eq!(reports[0].actor_health, 100);
    assert_eq!(reports[1].actor_health, 100 - reports[0].damage);
    assert_eq!(health_of(&world, b), 100 - reports[0].damage);
    assert_eq!(health_of(&world, a), 100 - reports[1].damage);
    // both attackers adopt the fixed ten-tick recovery
    assert_eq!(world.cooldowns.get_copy(a.index).expect("cooldown").0, 10);
    assert_eq!(world.cooldowns.get_copy(b.index).expect("cooldown").0, 10);
}

#[test]
fn attack_out_of_range_does_nothing() {
    let mut world = World::new();
    let mut rng = RandomSource::new();
    let a = spawn(&mut world, "Rat #1", 0, 0, 100);
    let b = spawn(&mut world, "Rat #2", 0, 3, 100);
    world.targets.put(a.index, Target(Some(b)));
    world.targets.put(b.index, Target(Some(a)));
    let reports = AttackSystem.run(&mut world, &mut rng);
    assert!(reports.is_empty());
    assert_eq!(health_of(&world, a), 100);
    assert_eq!(health_of(&world, b), 100);
    assert_eq!(world.cooldowns.get_copy(a.index).expect("cooldown").0, 0);
}

#[test]
fn attack_recovering_entity_counts_down() {
    let mut world = World::new();
    let mut rng = RandomSource::new();
    let a = spawn(&mut world, "Rat #1", 0, 0, 100);
    let b = spawn(&mut world, "Rat #2", 0, 1, 100);
    world.targets.put(a.index, Target(Some(b)));
    world.cooldowns.put(a.index, Cooldown(3));
    world.cooldowns.put(b.index, Cooldown(7));
    let reports = AttackSystem.run(&mut world, &mut rng);
    assert!(reports.is_empty());
    assert_eq!(world.cooldowns.get_copy(a.index).expect("cooldown").0, 2);
    assert_eq!(world.cooldowns.get_copy(b.index).expect("cooldown").0, 6);
}

#[test]
fn attack_dead_entity_never_acts() {
    let mut world = World::new();
    let mut rng = RandomSource::new();
    let a = spawn(&mut world, "Rat #1", 0, 0, 0);
    let b = spawn(&mut world, "Rat #2", 0, 1, 100);
    world.targets.put(a.index, Target(Some(b)));
    let reports = AttackSystem.run(&mut world, &mut rng);
    assert!(reports.is_empty());
    assert_eq!(health_of(&world, b), 100);
    assert_eq!(world.cooldowns.get_copy(a.index).expect("cooldown").0, 0);
}

#[test]
fn exact_killing_blow_reports_lethal_zero() {
    // hunt for a blow whose damage exactly equals the remaining health;
    // with damage drawn below ten and a small starting health this shows
    // up quickly
    let mut rng = RandomSource::new();
    let mut found = false;
    'trials: for _ in 0..500 {
        let mut world = World::new();
        let a = spawn(&mut world, "Rat #1", 0, 0, 6);
        let b = spawn(&mut world, "Rat #2", 0, 1, 100);
        // only the attacker acts: the victim starts deep in recovery
        world.cooldowns.put(a.index, Cooldown(1000000));
        world.targets.put(b.index, Target(Some(a)));
        for _ in 0..200 {
            let reports = AttackSystem.run(&mut world, &mut rng);
            for r in &reports {
                check_report_consistency(r);
                if r.pre_health > 0 && r.damage == r.pre_health {
                    assert_eq!(r.post_health, 0);
                    assert!(r.lethal);
                    found = true;
                    break 'trials;
                }
            }
            if health_of(&world, a) == 0 {
                break;
            }
        }
    }
    assert!(found, "no blow with damage exactly equal to remaining health was seen");
}

#[test]
fn single_living_entity_tick_is_idempotent() {
    let mut world = World::new();
    let mut rng = RandomSource::new();
    let a = spawn(&mut world, "Rat #1", 3, 4, 100);
    let _dead = spawn(&mut world, "Rat #2", 9, 9, 0);
    let dispatcher = standard_dispatcher();
    for _ in 0..10 {
        let reports = dispatcher.dispatch(&mut world, &mut rng);
        assert!(reports.is_empty());
        assert_eq!(position_of(&world, a), (3, 4));
        assert_eq!(health_of(&world, a), 100);
        world.maintain();
    }
}

#[test]
fn zero_candidates_leave_target_unset_forever() {
    let mut world = World::new();
    let mut rng = RandomSource::new();
    let a = spawn(&mut world, "Rat #1", 0, 0, 100);
    let _dead = spawn(&mut world, "Rat #2", 0, 1, 0);
    let dispatcher = standard_dispatcher();
    for _ in 0..20 {
        let reports = dispatcher.dispatch(&mut world, &mut rng);
        assert_eq!(target_of(&world, a), None);
        assert!(reports.is_empty());
        world.maintain();
    }
}

#[test]
fn duel_runs_to_a_sole_survivor() {
    let mut world = World::new();
    let mut rng = RandomSource::new();
    let a = spawn(&mut world, "Rat #1", 0, 0, 100);
    let b = spawn(&mut world, "Goblin #1", 0, 5, 100);
    let dispatcher = standard_dispatcher();

    // tick 1: both acquire each other and close one unit; no attack yet
    let reports = dispatcher.dispatch(&mut world, &mut rng);
    assert_eq!(target_of(&world, a), Some(b));
    assert_eq!(target_of(&world, b), Some(a));
    assert_eq!(position_of(&world, a), (0, 1));
    assert_eq!(position_of(&world, b), (0, 4));
    assert!(reports.is_empty());
    world.maintain();

    let mut all_reports: Vec<AttackReport> = reports;
    let mut ticks = 1;
    while world.living_count() > 1 {
        let mut reports = dispatcher.dispatch(&mut world, &mut rng);
        for r in &reports {
            check_report_consistency(r);
        }
        all_reports.append(&mut reports);
        world.maintain();
        ticks += 1;
        assert!(ticks < 100000, "the duel must end");
    }

    // monotone non-increasing health all along, floored at zero
    let mut last_a = 100;
    let mut last_b = 100;
    for r in &all_reports {
        let (pre, post) = (r.pre_health, r.post_health);
        assert!(post <= pre);
        if r.target == a {
            assert!(pre <= last_a);
            last_a = post;
        } else {
            assert_eq!(r.target, b);
            assert!(pre <= last_b);
            last_b = post;
        }
    }

    let winner = world.winner().expect("exactly one survivor");
    assert!(winner == a || winner == b);
    let loser = if winner == a { b } else { a };
    assert_eq!(health_of(&world, loser), 0);
    assert!(health_of(&world, winner) > 0);
    assert!(world.names.get(winner.index).is_some());

    // once dead, permanently excluded: further ticks never harm the winner
    let winner_health = health_of(&world, winner);
    for _ in 0..30 {
        let reports = dispatcher.dispatch(&mut world, &mut rng);
        for r in &reports {
            check_report_consistency(r);
            assert!(!r.lethal);
            assert_eq!(r.pre_health, 0);
        }
        assert_eq!(health_of(&world, winner), winner_health);
        assert_eq!(health_of(&world, loser), 0);
        assert_eq!(target_of(&world, loser), Some(winner));
        world.maintain();
    }
}

#[test]
fn attack_on_health_less_target_reports_nothing() {
    let mut world = World::new();
    let mut rng = RandomSource::new();
    let a = spawn(&mut world, "Rat #1", 0, 0, 100);
    // a bare entity with a position but no health component
    let ghost_town = world.create_entity();
    world.positions.put(ghost_town.index, Position(0, 1));
    world.targets.put(a.index, Target(Some(ghost_town)));
    let reports = AttackSystem.run(&mut world, &mut rng);
    // the blow is attempted (recovery starts) but lands on no health
    assert!(reports.is_empty());
    assert_eq!(world.cooldowns.get_copy(a.index).expect("cooldown").0, 10);
    assert!(world.healths.get_copy(ghost_town.index).is_none());
}

#[test]
fn attack_without_target_skips() {
    let mut world = World::new();
    let mut rng = RandomSource::new();
    let a = spawn(&mut world, "Rat #1", 0, 0, 100);
    let _b = spawn(&mut world, "Rat #2", 0, 1, 100);
    // both targets unset: nobody acts, cooldowns stay ready
    let reports = AttackSystem.run(&mut world, &mut rng);
    assert!(reports.is_empty());
    assert_eq!(world.cooldowns.get_copy(a.index).expect("cooldown").0, 0);
}

#[test]
fn movement_skips_position_less_target() {
    let mut world = World::new();
    let a = spawn(&mut world, "Rat #1", 0, 0, 100);
    // a bare entity with neither position nor health
    let nowhere = world.create_entity();
    world.targets.put(a.index, Target(Some(nowhere)));
    MovementSystem.run(&mut world);
    assert_eq!(position_of(&world, a), (0, 0));
}

#[test]
fn dispatcher_schedules_registration_order() {
    let dispatcher = standard_dispatcher();
    let order = dispatcher.schedule();
    assert_eq!(order, vec![0, 1, 2]);
    assert_eq!(dispatcher.systems[0].label, "targeting");
    assert_eq!(dispatcher.systems[1].label, "movement");
    assert_eq!(dispatcher.systems[2].label, "attack");
    assert_eq!(dispatcher.systems[2].deps, vec![1]);
}

#[test]
fn conflicting_systems_never_overlap() {
    assert!(!may_run_concurrently(SystemKind::Targeting, SystemKind::Movement));
    assert!(!may_run_concurrently(SystemKind::Movement, SystemKind::Attack));
    assert!(!may_run_concurrently(SystemKind::Targeting, SystemKind::Attack));
}

#[test]
fn world_counts_and_finds_the_survivor() {
    let mut world = World::new();
    let a = spawn(&mut world, "Rat #1", 0, 0, 50);
    let _b = spawn(&mut world, "Rat #2", 1, 1, 50);
    assert_eq!(world.living_count(), 2);
    assert_eq!(world.winner(), None);
    world.healths.put(1, Health(0));
    assert_eq!(world.living_count(), 1);
    assert_eq!(world.winner(), Some(a));
    world.healths.put(0, Health(0));
    assert_eq!(world.living_count(), 0);
    assert_eq!(world.winner(), None);
}

#[test]
fn names_and_threat_tables_are_stored() {
    let mut world = World::new();
    let a = world
        .create_monster()
        .with(ComponentValue::Name(Name(String::from("Goblin #3"))))
        .with(ComponentValue::Ai(AIControl(StandardAI)))
        .with(ComponentValue::Position(Position(2, 2)))
        .with(ComponentValue::Health(Health(100)))
        .with(ComponentValue::Model(Model(4)))
        .with(ComponentValue::Threat(combat_core::comp::ThreatTable(vec![], vec![])))
        .build(&mut world);
    assert_eq!(world.names.get(a.index).expect("name").0, "Goblin #3");
    assert!(world.threats.get(a.index).is_some());
    assert!(world.players.get(a.index).is_none());
}
