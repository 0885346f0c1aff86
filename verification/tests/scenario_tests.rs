use e2e_yaml::scenario::{Scenario, ScenarioError, ScenarioErrorKind, Scenarios};
use e2e_yaml::step::Step;
use indexmap::IndexMap;

fn five() -> Scenarios {
    let mut m: IndexMap<String, Scenario> = IndexMap::new();
    for i in 1..=5 {
        m.insert(
            format!("id{}", i),
            Scenario {
                name: format!("name{}", i),
                steps: vec![Step::Goto("http://localhost".to_string())],
            },
        );
    }
    Scenarios(m)
}

#[test]
fn test_find() {
    let scenarios: Scenarios = five();
    let id = vec!["id1", "id5"];

    let expected = [
        Scenario {
            name: "name1".to_string(),
            steps: vec![Step::Goto("http://localhost".to_string())],
        },
        Scenario {
            name: "name5".to_string(),
            steps: vec![Step::Goto("http://localhost".to_string())],
        },
    ];
    let actual = scenarios.find(id.as_slice()).unwrap();
    assert_eq!(2, actual.len());
    assert_eq!(&expected[0], actual[0]);
    assert_eq!(&expected[1], actual[1]);
}

#[test]
fn test_find_not_found() {
    let scenarios: Scenarios = five();
    let id = vec!["id6"];

    let actual = scenarios.find(id.as_slice());
    let err = actual.err();
    assert!(err.is_some());
    assert_eq!(
        ScenarioError {
            kind: ScenarioErrorKind::NotFound
        },
        err.unwrap()
    );
}

#[test]
fn test_find_keeps_the_order_asked_for() {
    let scenarios = five();
    let found = scenarios.find(&["id4", "id2", "id4"]).unwrap();
    let names: Vec<&str> = found.iter().map(|s| s.name.as_str()).collect();
    assert_eq!(names, vec!["name4", "name2", "name4"]);
}

#[test]
fn test_find_nothing() {
    let scenarios = five();
    assert_eq!(scenarios.find(&[]).unwrap().len(), 0);
}

#[test]
fn test_find_gives_no_part_of_a_selection() {
    let scenarios = five();
    assert_eq!(
        scenarios.find(&["id1", "id6", "id2"]),
        Err(ScenarioError { kind: ScenarioErrorKind::NotFound })
    );
}

#[test]
fn test_registry_by_position_and_id() {
    let scenarios = five();
    assert_eq!(scenarios.len(), 5);
    let (id, scenario) = scenarios.get_index(2).unwrap();
    assert_eq!(id, "id3");
    assert_eq!(scenario.name, "name3");
    assert_eq!(scenarios.get_index(5), None);
    assert_eq!(scenarios.get("id2").unwrap().name, "name2");
    assert_eq!(scenarios.get("id0"), None);
}

#[test]
fn test_scenario_clone() {
    let scenarios = five();
    let s = scenarios.get("id1").unwrap();
    assert_eq!(&s.clone(), s);
}

#[test]
fn test_scenario_error_message() {
    assert_eq!(ScenarioError { kind: ScenarioErrorKind::NotFound }.message(), "NotFound");
}
