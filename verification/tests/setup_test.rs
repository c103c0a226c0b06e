use mpl::boundaries::Boundaries;
use mpl::collision_checker::NaiveCollisionChecker;
use mpl::optimizer::DefaultOptimizer;
use mpl::planner::base_planner::Planner;
use mpl::planner::prm::PRM;
use mpl::planner::rrt::RRT;
use mpl::problem::ProblemDefinition;
use mpl::setup::PlanningSetup;
use mpl::space::Point;
use mpl::types::{COORDINATE_ONE, COST_MAX};

fn units(value: f64) -> i64 {
    (value * COORDINATE_ONE as f64).round() as i64
}

fn length(value: f64) -> u64 {
    (value * COORDINATE_ONE as f64).round() as u64
}

#[test]
fn test_setup_with_prm_new() {
    let setup: PlanningSetup<PRM<NaiveCollisionChecker, DefaultOptimizer>> = PlanningSetup {
        planner: Box::<PRM<NaiveCollisionChecker, DefaultOptimizer>>::default(),
        problem: ProblemDefinition::default(),
        boundaries: Boundaries::default(),
        ready: false,
    };

    assert!(!setup.ready);
}

#[test]
fn test_setup_with_prm_setup() {
    let mut setup: PlanningSetup<PRM<NaiveCollisionChecker, DefaultOptimizer>> = PlanningSetup {
        planner: Box::<PRM<NaiveCollisionChecker, DefaultOptimizer>>::default(),
        problem: ProblemDefinition::default(),
        boundaries: Boundaries::default(),
        ready: false,
    };

    assert!(!setup.ready);
    setup.setup();
    assert!(setup.ready);
}

#[test]
fn test_setup_with_prm_solve() {
    let start: Point = Point::new(units(1f64), units(1f64));
    let goal: Point = Point::new(units(2f64), units(2f64));

    let mut setup: PlanningSetup<PRM<NaiveCollisionChecker, DefaultOptimizer>> = PlanningSetup {
        planner: Box::<PRM<NaiveCollisionChecker, DefaultOptimizer>>::default(),
        problem: ProblemDefinition::new(start, goal),
        boundaries: Boundaries::default(),
        ready: false,
    };

    setup.setup();
    assert!(setup.solve(1_000_000));
    assert_eq!(setup.planner.roadmap.node_count(), 32);
}

#[test]
fn test_sanity_check_returns_true() {
    let setup: PlanningSetup<PRM<NaiveCollisionChecker, DefaultOptimizer>> = PlanningSetup {
        planner: Box::<PRM<NaiveCollisionChecker, DefaultOptimizer>>::default(),
        problem: ProblemDefinition::default(),
        boundaries: Boundaries::default(),
        ready: false,
    };

    let result = setup.sanity_check();

    assert_eq!(result, true);
}

#[test]
fn test_sanity_check_returns_true_when_boundaries_are_equal() {
    let boundaries = Boundaries::new(units(0.0), units(0.0), units(1.0), units(1.0));
    let setup: PlanningSetup<PRM<NaiveCollisionChecker, DefaultOptimizer>> = PlanningSetup {
        planner: Box::<PRM<NaiveCollisionChecker, DefaultOptimizer>>::default(),
        problem: ProblemDefinition::default(),
        boundaries,
        ready: false,
    };

    let result = setup.sanity_check();

    assert_eq!(result, true);
}

#[test]
fn test_sanity_check_returns_false_when_lower_y_boundary_is_greater_than_upper_y_boundary() {
    let boundaries = Boundaries::new(units(0.0), units(0.0), units(1.0), units(-1.0));
    let setup: PlanningSetup<PRM<NaiveCollisionChecker, DefaultOptimizer>> = PlanningSetup {
        planner: Box::<PRM<NaiveCollisionChecker, DefaultOptimizer>>::default(),
        problem: ProblemDefinition::default(),
        boundaries,
        ready: false,
    };

    let result = setup.sanity_check();

    assert_eq!(result, false);
}

#[test]
fn test_sanity_check_returns_false_when_lower_x_boundary_is_greater_than_upper_x_boundary() {
    let boundaries = Boundaries::new(units(2.0), units(0.0), units(1.0), units(1.0));
    let setup: PlanningSetup<PRM<NaiveCollisionChecker, DefaultOptimizer>> = PlanningSetup {
        planner: Box::<PRM<NaiveCollisionChecker, DefaultOptimizer>>::default(),
        problem: ProblemDefinition::default(),
        boundaries,
        ready: false,
    };

    let result = setup.sanity_check();

    assert_eq!(result, false);
}

#[test]
fn test_prm_naiv_scenario() {
    let bounds: Boundaries = Boundaries::new(units(0f64), units(3f64), units(0f64), units(3f64));
    let planner = Box::<PRM<NaiveCollisionChecker, DefaultOptimizer>>::default();
    let start = Point::new(units(0f64), units(0f64));
    let goal = Point::new(units(3f64), units(3f64));
    let pdef: ProblemDefinition = ProblemDefinition::new(start, goal);

    let mut setup: PlanningSetup<PRM<NaiveCollisionChecker, DefaultOptimizer>> =
        PlanningSetup { planner, problem: pdef, boundaries: bounds, ready: false };
    setup.setup();
    assert!(setup.ready);
    assert!(setup.solve(1_000_000));
    let cost = setup.planner.get_solution_cost();

    assert!(cost > length(2f64));
    assert!(cost < length(10f64));
    assert_eq!(setup.get_statistics(), cost);
}

#[test]
fn setup_hands_the_problem_to_the_planner() {
    let start = Point::new(units(0.5), units(0.25));
    let goal = Point::new(units(2.5), units(2.75));
    let mut setup: PlanningSetup<RRT<NaiveCollisionChecker>> = PlanningSetup {
        planner: Box::<RRT<NaiveCollisionChecker>>::default(),
        problem: ProblemDefinition::new(start, goal),
        boundaries: Boundaries::new(units(0.0), units(3.0), units(0.0), units(3.0)),
        ready: false,
    };
    setup.setup();
    assert!(setup.ready);
    assert_eq!(setup.planner.start, start);
    assert_eq!(setup.planner.goal, goal);
    assert_eq!(setup.planner.boundaries.get_x_upper(), units(3.0));
    assert_eq!(setup.planner.boundaries.get_y_lower(), units(0.0));
    assert_eq!(setup.planner.roadmap.node(0), Some(start));
    assert_eq!(setup.planner.roadmap.node(1), Some(goal));
    assert_eq!(setup.planner.roadmap.node_count(), 2);
    assert_eq!(setup.get_statistics(), COST_MAX);
    assert!(setup.solve(1_000_000));
    assert!(setup.get_statistics() >= length(3.2));
    assert!(setup.get_statistics() < length(9.0));
}

#[test]
fn setup_is_not_ready_with_reversed_boundaries() {
    let mut setup: PlanningSetup<PRM<NaiveCollisionChecker, DefaultOptimizer>> = PlanningSetup {
        planner: Box::<PRM<NaiveCollisionChecker, DefaultOptimizer>>::default(),
        problem: ProblemDefinition::default(),
        boundaries: Boundaries::new(units(2.0), units(0.0), units(0.0), units(1.0)),
        ready: true,
    };
    setup.setup();
    assert!(!setup.ready);
    assert_eq!(setup.planner.roadmap.node_count(), 0);
}

#[test]
fn setup_is_not_ready_with_a_goal_outside() {
    let mut setup: PlanningSetup<PRM<NaiveCollisionChecker, DefaultOptimizer>> = PlanningSetup {
        planner: Box::<PRM<NaiveCollisionChecker, DefaultOptimizer>>::default(),
        problem: ProblemDefinition::new(Point::new(0, 0), Point::new(units(4.0), 0)),
        boundaries: Boundaries::new(units(0.0), units(3.0), units(0.0), units(3.0)),
        ready: false,
    };
    setup.setup();
    assert!(!setup.ready);
    assert_eq!(setup.planner.roadmap.node_count(), 0);
    assert_eq!(setup.planner.goal, Point::new(units(4.0), 0));
}

#[test]
fn solving_without_samples_changes_nothing() {
    let mut setup: PlanningSetup<PRM<NaiveCollisionChecker, DefaultOptimizer>> = PlanningSetup {
        planner: Box::<PRM<NaiveCollisionChecker, DefaultOptimizer>>::default(),
        problem: ProblemDefinition::new(Point::new(0, 0), Point::new(units(3.0), units(3.0))),
        boundaries: Boundaries::new(units(0.0), units(3.0), units(0.0), units(3.0)),
        ready: false,
    };
    setup.setup();
    assert!(setup.ready);
    assert!(!setup.solve(0));
    assert_eq!(setup.planner.roadmap.node_count(), 2);
    assert_eq!(setup.planner.roadmap.edge_count(), 0);
    assert_eq!(setup.get_statistics(), COST_MAX);
    assert!(!setup.solve(4));
    assert_eq!(setup.planner.roadmap.node_count(), 6);
    assert!(setup.planner.roadmap.edge_count() >= 4);
    assert!(setup.planner.is_solved());
    let cost = setup.get_statistics();
    assert!(cost >= length(4.24));
    assert!(setup.solve(1_000_000));
    assert_eq!(setup.planner.roadmap.node_count(), 32);
    assert!(setup.get_statistics() <= cost);
}
