use mpl::problem::ProblemDefinition;
use mpl::space::Point;
use mpl::types::COORDINATE_ONE;

fn units(value: f64) -> i64 {
    (value * COORDINATE_ONE as f64).round() as i64
}

#[test]
fn test_create_new_instance_with_default_values_f64() {
    let prd: ProblemDefinition = ProblemDefinition::default();
    assert_eq!(prd.get_start(), Point::default());
    assert_eq!(prd.get_goal(), Point::default());
    assert_eq!(prd.solution.len(), 0);
}

#[test]
fn test_create_new_instance_with_default_values_f32() {
    let prd: ProblemDefinition = ProblemDefinition::default();
    assert_eq!(prd.get_start(), Point::default());
    assert_eq!(prd.get_goal(), Point::default());
    assert_eq!(prd.solution.len(), 0);
}

#[test]
fn test_create_custom_instance() {
    let start: Point = Point::new(units(1.0), units(2.0));
    let goal: Point = Point::new(units(3.0), units(4.0));

    let problem_def: ProblemDefinition = ProblemDefinition::new(start, goal);

    assert_eq!(problem_def.get_start(), start);
    assert_eq!(problem_def.get_goal(), goal);
}

#[test]
fn retrieve_start_point() {
    let start_point: Point = Point::new(units(1.0), units(2.0));
    let problem_definition: ProblemDefinition =
        ProblemDefinition::new(start_point, Point::default());

    let retrieved_start_point: Point = problem_definition.get_start();

    assert_eq!(retrieved_start_point, start_point);
}

#[test]
fn retrieve_goal_point() {
    let start: Point = Point::new(units(0.0), units(0.0));
    let goal: Point = Point::new(units(1.0), units(1.0));
    let problem_definition: ProblemDefinition = ProblemDefinition::new(start, goal);

    let retrieved_goal: Point = problem_definition.get_goal();

    assert_eq!(retrieved_goal, goal);
}

#[test]
fn update_start_point() {
    let mut problem_def: ProblemDefinition = ProblemDefinition::default();

    let start_point: Point = Point::new(units(1.0), units(2.0));
    problem_def.set_start(start_point);

    assert_eq!(problem_def.get_start(), start_point);
}

#[test]
fn update_goal_point() {
    let mut problem_def: ProblemDefinition =
        ProblemDefinition::new(Point::new(units(0.0), units(0.0)), Point::new(units(1.0), units(1.0)));

    problem_def.set_goal(Point::new(units(2.0), units(2.0)));

    assert_eq!(problem_def.get_goal(), Point::new(units(2.0), units(2.0)));
}

#[test]
fn test_solution_vector_empty() {
    let prd: ProblemDefinition = ProblemDefinition::default();
    assert_eq!(prd.solution.len(), 0);
}
