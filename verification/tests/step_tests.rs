use e2e_yaml::step::{Step, StepError, StepErrorKind, ValueKind};
use e2e_yaml::var::Vars;
use indexmap::IndexMap;

fn all_steps() -> Vec<Step> {
    vec![
        Step::Goto("{url}".to_string()),
        Step::Click("{app}".to_string()),
        Step::Focus("{app}".to_string()),
        Step::SendKeys {
            selector: "{app}".to_string(),
            value: "{app}".to_string(),
        },
        Step::ScreenShot("{app}".to_string()),
        Step::WaitDisplayed {
            selector: "{app}".to_string(),
            timeout: 3000,
            interval: 1000,
        },
        Step::TaskRun {
            id: "login".to_string(),
            args: Some(vec!["admin".to_string(), "{app}".to_string()]),
        },
        Step::AssertEq {
            kind: ValueKind::Text,
            expected: "{app}".to_string(),
            selector: "{app}".to_string(),
        },
    ]
}

#[test]
fn test_expand_vars() {
    let vars = Vars(IndexMap::from([
        ("url".to_string(), "http://localhost".to_string()),
        ("app".to_string(), "e2e".to_string()),
    ]));
    let steps: Vec<Step> = all_steps();
    let expanded_steps: Vec<Step> = steps.iter().map(|x| x.expand_vars(&vars)).collect();
    let s1 = &expanded_steps[0];
    let s2 = &expanded_steps[1];
    let s3 = &expanded_steps[2];
    let s4 = &expanded_steps[3];
    let s5 = &expanded_steps[4];
    let s6 = &expanded_steps[5];
    let s7 = &expanded_steps[6];
    let s8 = &expanded_steps[7];
    assert_eq!(Step::Goto("http://localhost".to_string()), *s1);
    assert_eq!(Step::Click("e2e".to_string()), *s2);
    assert_eq!(Step::Focus("e2e".to_string()), *s3);
    assert_eq!(
        Step::SendKeys {
            selector: "e2e".to_string(),
            value: "e2e".to_string(),
        },
        *s4
    );
    assert_eq!(Step::ScreenShot("e2e".to_string()), *s5);
    assert_eq!(
        Step::WaitDisplayed {
            selector: "e2e".to_string(),
            timeout: 3000,
            interval: 1000,
        },
        *s6
    );
    assert_eq!(
        Step::TaskRun {
            id: "login".to_string(),
            args: Some(vec!["admin".to_string(), "e2e".to_string()]),
        },
        *s7
    );
    assert_eq!(
        Step::AssertEq {
            kind: ValueKind::Text,
            expected: "e2e".to_string(),
            selector: "e2e".to_string(),
        },
        *s8
    );
}

#[test]
fn test_deserialize() {
    let vars = Vars(IndexMap::from([
        ("domain".to_string(), "en.wikipedia.org".to_string()),
        ("word".to_string(), "hello world".to_string()),
        ("css".to_string(), "#id.class[attr=value]".to_string()),
        ("img_out".to_string(), "~/img".to_string()),
        ("timeout".to_string(), "3000".to_string()),
        ("inteval".to_string(), "500".to_string()),
    ]));
    let scenario_steps = vec![
        Step::Goto("https://{domain}/wiki/Main_Page".to_string()),
        Step::Click("{css}".to_string()),
        Step::Focus("{css}[name=btn]".to_string()),
        Step::SendKeys {
            selector: "input#searchInput".to_string(),
            value: "{word}".to_string(),
        },
        Step::ScreenShot("{img_out}/img0.png".to_string()),
        Step::WaitDisplayed {
            selector: "{css}".to_string(),
            timeout: 3000,
            interval: 1000,
        },
    ];

    assert_eq!(
        Some((0, &"domain".to_string(), &"en.wikipedia.org".to_string())),
        vars.0.get_full("domain")
    );
    assert_eq!(
        Some((1, &"word".to_string(), &"hello world".to_string())),
        vars.0.get_full("word")
    );
    assert_eq!(
        Some((2, &"css".to_string(), &"#id.class[attr=value]".to_string())),
        vars.0.get_full("css")
    );
    assert_eq!(
        Some((3, &"img_out".to_string(), &"~/img".to_string())),
        vars.0.get_full("img_out")
    );

    let steps: Vec<Step> = scenario_steps.iter().map(|s| s.expand_vars(&vars)).collect();
    let s1 = steps.first().unwrap();
    let s2 = steps.get(1).unwrap();
    let s3 = steps.get(2).unwrap();
    let s4 = steps.get(3).unwrap();
    let s5 = steps.get(4).unwrap();
    let s6 = steps.get(5).unwrap();
    assert_eq!(
        Step::Goto("https://en.wikipedia.org/wiki/Main_Page".to_string()),
        *s1
    );
    assert_eq!(Step::Click("#id.class[attr=value]".to_string()), *s2);
    assert_eq!(
        Step::Focus("#id.class[attr=value][name=btn]".to_string()),
        *s3
    );
    assert_eq!(
        Step::SendKeys {
            selector: "input#searchInput".to_string(),
            value: "hello world".to_string(),
        },
        *s4
    );
    assert_eq!(Step::ScreenShot("~/img/img0.png".to_string()), *s5);
    assert_eq!(
        Step::WaitDisplayed {
            selector: "#id.class[attr=value]".to_string(),
            timeout: 3000,
            interval: 1000,
        },
        *s6
    );
}

#[test]
fn test_expand_vars_keeps_accept_alert_and_task_id() {
    let vars = Vars(IndexMap::from([("id".to_string(), "other".to_string())]));
    assert_eq!(Step::AcceptAlert.expand_vars(&vars), Step::AcceptAlert);
    assert_eq!(
        Step::TaskRun { id: "{id}".to_string(), args: None }.expand_vars(&vars),
        Step::TaskRun { id: "{id}".to_string(), args: None }
    );
    assert_eq!(
        Step::AssertEq {
            kind: ValueKind::Class,
            expected: "{id}".to_string(),
            selector: "#{id}".to_string()
        }
        .expand_vars(&vars),
        Step::AssertEq {
            kind: ValueKind::Class,
            expected: "other".to_string(),
            selector: "#other".to_string()
        }
    );
}

#[test]
fn test_expand_var_binds_one_name() {
    let step = Step::SendKeys {
        selector: "#{field}".to_string(),
        value: "{name} {other}".to_string(),
    };
    assert_eq!(
        step.expand_var("name", "admin"),
        Step::SendKeys {
            selector: "#{field}".to_string(),
            value: "admin {other}".to_string(),
        }
    );
}

#[test]
fn test_expand_var_on_every_variant() {
    let bound: Vec<Step> = all_steps().iter().map(|s| s.expand_var("app", "X")).collect();
    assert_eq!(bound[0], Step::Goto("{url}".to_string()));
    assert_eq!(bound[1], Step::Click("X".to_string()));
    assert_eq!(bound[2], Step::Focus("X".to_string()));
    assert_eq!(
        bound[3],
        Step::SendKeys { selector: "X".to_string(), value: "X".to_string() }
    );
    assert_eq!(bound[4], Step::ScreenShot("X".to_string()));
    assert_eq!(
        bound[5],
        Step::WaitDisplayed { selector: "X".to_string(), timeout: 3000, interval: 1000 }
    );
    assert_eq!(
        bound[6],
        Step::TaskRun {
            id: "login".to_string(),
            args: Some(vec!["admin".to_string(), "X".to_string()]),
        }
    );
    assert_eq!(
        bound[7],
        Step::AssertEq {
            kind: ValueKind::Text,
            expected: "X".to_string(),
            selector: "X".to_string(),
        }
    );
    assert_eq!(Step::AcceptAlert.expand_var("app", "X"), Step::AcceptAlert);
}

#[test]
fn test_step_clone() {
    for step in all_steps() {
        assert_eq!(step.clone(), step);
    }
    assert_eq!(Step::AcceptAlert.clone(), Step::AcceptAlert);
}

#[test]
fn test_step_error_messages() {
    let e = StepError { kind: StepErrorKind::AssertFailed("a".to_string(), "b".to_string()) };
    assert_eq!(e.message(), "\tassert failed. expected 'a', actual 'b'\n");
    let e = StepError { kind: StepErrorKind::TaskNotFound("login".to_string()) };
    assert_eq!(e.message(), "task with id 'login' not found in configuration\n");
    let e = StepError { kind: StepErrorKind::WebDriverError("no such element".to_string()) };
    assert_eq!(e.message(), "no such element\n");
    let e = StepError { kind: StepErrorKind::DirectoryCreateFailed("denied".to_string()) };
    assert_eq!(e.message(), "denied\n");
    let e = StepError { kind: StepErrorKind::ArgumentMismatch("login".to_string()) };
    assert_eq!(
        e.message(),
        "task with id 'login' was run with a wrong number of arguments\n"
    );
}
