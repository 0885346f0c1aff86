use e2e_yaml::var::{expand, expand_one, parse_var_names, placeholder_of, Vars};
use indexmap::IndexMap;

fn vars(pairs: &[(&str, &str)]) -> Vars {
    let mut m: IndexMap<String, String> = IndexMap::new();
    for (k, v) in pairs {
        m.insert(k.to_string(), v.to_string());
    }
    Vars(m)
}

#[test]
fn test_single_variable() {
    let input = "{name}";
    let expected = Some(vec!["name".to_string()]);
    assert_eq!(parse_var_names(input), expected);
}

#[test]
fn test_multiple_variables() {
    let input = "{a} {b} {c} {{{d}}}";
    let expected = Some(vec![
        "a".to_string(),
        "b".to_string(),
        "c".to_string(),
        "d".to_string(),
    ]);
    assert_eq!(parse_var_names(input), expected);
}

#[test]
fn test_escaped_braces() {
    let input = "{{not_a_var}} and {real}";
    let expected = Some(vec!["real".to_string()]);
    assert_eq!(parse_var_names(input), expected);
}

#[test]
fn test_empty_input() {
    let input = "";
    let expected = None;
    assert_eq!(parse_var_names(input), expected);
}

#[test]
fn test_no_variables() {
    let input = "hello world";
    let expected = None;
    assert_eq!(parse_var_names(input), expected);
}

#[test]
fn test_trailing_brace_without_opening() {
    let input = "oops}";
    let expected = None;
    assert_eq!(parse_var_names(input), expected);
}

#[test]
fn test_escape_sequence_only() {
    let input = "{{}}";
    let expected = None;
    assert_eq!(parse_var_names(input), expected);
}

#[test]
fn test_whitespace_inside_var() {
    let input = "{hello world}";
    let expected = Some(vec!["hello world".to_string()]);
    assert_eq!(parse_var_names(input), expected);
}

#[test]
fn test_duplicate_names_are_kept() {
    assert_eq!(
        parse_var_names("{a}-{a}"),
        Some(vec!["a".to_string(), "a".to_string()])
    );
}

#[test]
fn test_empty_name() {
    assert_eq!(parse_var_names("{}"), Some(vec!["".to_string()]));
}

#[test]
fn test_closing_brace_ends_the_name() {
    // After a name has been emitted no name is open until the next `{`.
    assert_eq!(parse_var_names("{a}b}"), Some(vec!["a".to_string()]));
}

#[test]
fn test_opening_brace_restarts_the_name() {
    assert_eq!(parse_var_names("{a{b}"), Some(vec!["b".to_string()]));
}

#[test]
fn test_escapes_inside_a_name_are_dropped() {
    assert_eq!(parse_var_names("{a{{b}}c}"), Some(vec!["abc".to_string()]));
}

#[test]
fn test_unclosed_name() {
    assert_eq!(parse_var_names("{abc"), None);
}

#[test]
fn test_non_ascii_text() {
    assert_eq!(
        parse_var_names("país {ñandú} ✓"),
        Some(vec!["ñandú".to_string()])
    );
    assert_eq!(
        expand("país {ñandú} ✓", &vars(&[("ñandú", "鳥")])),
        "país 鳥 ✓"
    );
}

#[test]
fn test_placeholder_of() {
    assert_eq!(placeholder_of("name"), "{name}");
    assert_eq!(placeholder_of(""), "{}");
}

#[test]
fn test_expand_empty_text() {
    assert_eq!(expand("", &vars(&[("a", "b")])), "");
    assert_eq!(expand("", &Vars::empty()), "");
}

#[test]
fn test_expand_without_placeholders() {
    assert_eq!(expand("hello world", &vars(&[("hello", "bye")])), "hello world");
    assert_eq!(expand("{{x}} }", &vars(&[("x", "y")])), "{{x}} }");
}

#[test]
fn test_expand_missing_is_left() {
    assert_eq!(expand("{missing}", &Vars::empty()), "{missing}");
    assert_eq!(expand("a {missing} b", &vars(&[("other", "x")])), "a {missing} b");
}

#[test]
fn test_expand_replaces_every_occurrence() {
    assert_eq!(
        expand("{a}/{b}/{a}", &vars(&[("a", "1"), ("b", "22")])),
        "1/22/1"
    );
}

#[test]
fn test_expand_wikipedia() {
    assert_eq!(
        expand(
            "https://{domain}/wiki/Main_Page",
            &vars(&[("domain", "en.wikipedia.org")])
        ),
        "https://en.wikipedia.org/wiki/Main_Page"
    );
}

#[test]
fn test_expand_is_not_idempotent() {
    let v = vars(&[("a", "{b}"), ("b", "x")]);
    // `b` is no name of the template, so the value put in for `a` stays.
    let once = expand("{a}", &v);
    assert_eq!(once, "{b}");
    assert_eq!(expand(&once, &v), "x");
}

#[test]
fn test_expand_goes_name_by_name() {
    // The names are those of the template; each is replaced in what the
    // names before it have left.
    let v = vars(&[("a", "{b}"), ("b", "x")]);
    assert_eq!(expand("{a} {b}", &v), "x x");
}

#[test]
fn test_expand_one() {
    assert_eq!(expand_one("{name} and {other}", "name", "admin"), "admin and {other}");
    assert_eq!(expand_one("{n}{n}{n}", "n", "ab"), "ababab");
    assert_eq!(expand_one("no placeholder", "n", "x"), "no placeholder");
    assert_eq!(expand_one("", "n", "x"), "");
    assert_eq!(expand_one("{n", "n", "x"), "{n");
    assert_eq!(expand_one("{{n}}", "n", "x"), "{x}");
}

#[test]
fn test_expand_one_takes_occurrences_from_the_left() {
    // The placeholder of `}{` overlaps itself.
    assert_eq!(expand_one("{}{}{}", "}{", "x"), "x{}");
    assert_eq!("{}{}{}".replace("{}{}", "x"), "x{}");
}

#[test]
fn test_vars_lookup() {
    let v = vars(&[("a", "1")]);
    assert_eq!(v.lookup("a"), Some(&"1".to_string()));
    assert_eq!(v.lookup("b"), None);
    assert_eq!(Vars::empty().lookup("a"), None);
    assert_eq!(Vars::empty().0.len(), 0);
}

#[test]
fn test_escapes_next_to_placeholders() {
    // `{a}`, `}}`, `{{`, `{b}` one behind the other.
    assert_eq!(
        parse_var_names("{a}}}{{{b}"),
        Some(vec!["a".to_string(), "b".to_string()])
    );
    // Two escapes behind a placeholder: the last brace of the run closes it.
    assert_eq!(parse_var_names("{a}}}}}"), Some(vec!["a".to_string()]));
    assert_eq!(parse_var_names("x{{y}}z"), None);
}
