use uaparser::template::none_if_empty;
use uaparser::template::substitute;

fn groups(items: Vec<Option<&str>>) -> Vec<Option<String>> {
    items.into_iter().map(|o| o.map(|s| s.to_string())).collect()
}

#[test]
fn substitute_two_groups_exact() {
    let g = groups(vec![Some("Chrome/91"), Some("Chrome"), Some("91")]);
    assert_eq!(substitute("$1 $2", &g), "Chrome 91".to_string());
}

#[test]
fn substitute_missing_group_is_empty_portion() {
    let g = groups(vec![Some("Chrome/91"), Some("Chrome"), Some("91")]);
    assert_eq!(substitute("$3", &g), "".to_string());
    assert_eq!(substitute("v$3", &g), "v".to_string());
}

#[test]
fn substitute_absent_group_is_empty() {
    let g = groups(vec![Some("b"), None, Some("b")]);
    assert_eq!(substitute("$1x$2", &g), "xb".to_string());
}

#[test]
fn substitute_literal_template_kept_verbatim() {
    let g = groups(vec![Some("whole"), Some("one")]);
    assert_eq!(substitute("  a literal  ", &g), "  a literal  ".to_string());
}

#[test]
fn substitute_trims_substituted_result() {
    let g = groups(vec![Some(" x "), Some(" x ")]);
    assert_eq!(substitute("$1", &g), "x".to_string());
}

#[test]
fn substitute_without_captures_kept_verbatim() {
    let g = groups(vec![]);
    assert_eq!(substitute("$1", &g), "$1".to_string());
}

#[test]
fn substitute_multi_digit_placeholder_names_its_group() {
    let mut items: Vec<Option<&str>> = vec![Some("whole"), Some("one")];
    for _ in 2..10 {
        items.push(None);
    }
    items.push(Some("ten"));
    let g = groups(items);
    assert_eq!(g.len(), 11);
    assert_eq!(substitute("$10", &g), "ten".to_string());
}

#[test]
fn substitute_placeholder_beyond_group_count_is_empty() {
    let g = groups(vec![Some("Chrome/91"), Some("Chrome"), Some("91")]);
    assert_eq!(substitute("$5", &g), "".to_string());
    assert_eq!(substitute("a$5b", &g), "ab".to_string());
}

#[test]
fn substitute_group_zero_is_whole_match() {
    let g = groups(vec![Some("Chrome/91"), Some("Chrome"), Some("91")]);
    assert_eq!(substitute("$0", &g), "Chrome/91".to_string());
}

#[test]
fn substitute_dollar_without_digits_kept() {
    let g = groups(vec![Some("whole"), Some("one")]);
    assert_eq!(substitute("a$x", &g), "a$x".to_string());
    assert_eq!(substitute("cost $", &g), "cost $".to_string());
}

#[test]
fn none_if_empty_maps_empty_to_absent() {
    assert_eq!(none_if_empty("".to_string()), None);
    assert_eq!(none_if_empty("a".to_string()), Some("a".to_string()));
}
