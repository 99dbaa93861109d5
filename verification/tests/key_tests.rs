use mago_analyzer::keys::{array_item_target, plan_key_walk, property_target, DictKey, KeyStep};
use mago_analyzer::path::break_up_path_into_parts;
use mago_analyzer::text::{contains_bytes, ends_with, find_bytes, parse_i64, parse_usize, starts_with};

fn parts(key: &str) -> Vec<Vec<u8>> {
    break_up_path_into_parts(key.as_bytes())
}

#[test]
fn substring_search_finds_the_first_occurrence() {
    assert_eq!(find_bytes(b"A::B::C", b"::"), Some(1));
    assert_eq!(find_bytes(b"$a->b", b"::"), None);
    assert_eq!(find_bytes(b"abc", b""), Some(0));
    assert!(contains_bytes(b"$a->b", b"->"));
    assert!(!contains_bytes(b"$a-b", b"->"));
    assert!(starts_with(b"$this->x", b"$this->"));
    assert!(!starts_with(b"$th", b"$this"));
    assert!(ends_with(b"$a['k']", b"]"));
    assert!(!ends_with(b"$a", b"]"));
}

#[test]
fn decimal_parsing_follows_str_parse() {
    for text in ["0", "42", "+7", "-7", "-", "+", "", "12a", "9223372036854775807", "9223372036854775808", "-9223372036854775808", "-9223372036854775809", "007", " 1"] {
        assert_eq!(parse_i64(text.as_bytes()), text.parse::<i64>().ok(), "i64 of {text:?}");
        assert_eq!(parse_usize(text.as_bytes()), text.parse::<usize>().ok(), "usize of {text:?}");
    }
    assert_eq!(parse_usize(b"18446744073709551615"), "18446744073709551615".parse::<usize>().ok());
    assert_eq!(parse_usize(b"18446744073709551616"), None);
    assert_eq!(parse_i64(b"-12"), Some(-12));
    assert_eq!(parse_usize(b"-0"), None);
}

#[test]
fn array_item_target_of_a_quoted_key() {
    let t = array_item_target(&parts("$a['k']")).unwrap();
    assert_eq!(t.base_key, b"$a".to_vec());
    assert_eq!(t.array_key, b"'k'".to_vec());
    assert!(!t.is_variable);
    assert!(matches!(t.dict_key, Some(DictKey::String(ref s)) if s == b"k"));
    assert_eq!(t.list_index, None);
    assert!(!t.is_nested);
}

#[test]
fn array_item_target_of_numbers_and_variables() {
    let t = array_item_target(&parts("$a[3]")).unwrap();
    assert!(matches!(t.dict_key, Some(DictKey::Integer(3))));
    assert_eq!(t.list_index, Some(3));
    let t = array_item_target(&parts("$a['0']")).unwrap();
    assert!(matches!(t.dict_key, Some(DictKey::String(ref s)) if s == b"0"));
    assert_eq!(t.list_index, Some(0));
    let t = array_item_target(&parts("$a[-1]")).unwrap();
    assert!(matches!(t.dict_key, Some(DictKey::Integer(-1))));
    assert_eq!(t.list_index, None);
    let t = array_item_target(&parts("$a[$i]")).unwrap();
    assert!(t.is_variable);
    assert!(t.dict_key.is_none());
    let t = array_item_target(&parts("$a[FOO]")).unwrap();
    assert!(t.dict_key.is_none());
    assert!(t.list_index.is_none());
    assert!(array_item_target(&parts("$a")).is_none());
}

#[test]
fn nested_array_item_target() {
    let t = array_item_target(&parts("$a['x'][1]")).unwrap();
    assert_eq!(t.base_key, b"$a['x']".to_vec());
    assert!(t.is_nested);
    let t = array_item_target(&parts("$a->b[1]")).unwrap();
    assert_eq!(t.base_key, b"$a->b".to_vec());
    assert!(!t.is_nested);
}

#[test]
fn property_target_of_a_property_key() {
    assert_eq!(property_target(&parts("$a->b")), Some((b"$a".to_vec(), b"b".to_vec())));
    assert_eq!(property_target(&parts("$a['k']->b")), Some((b"$a['k']".to_vec(), b"b".to_vec())));
    assert_eq!(property_target(&parts("$a['k']")), None);
    assert_eq!(property_target(&parts("$a")), None);
}

#[test]
fn walking_a_key_from_its_root() {
    let w = plan_key_walk(b"$a['k'][2]->p").unwrap();
    assert_eq!(w.base_key, b"$a".to_vec());
    assert!(w.class_constant.is_none());
    assert!(w.complete);
    assert_eq!(w.steps.len(), 3);
    match &w.steps[0] {
        KeyStep::ArrayItem { key, array_key, dict_key, list_index } => {
            assert_eq!(key, &b"$a['k']".to_vec());
            assert_eq!(array_key, &b"'k'".to_vec());
            assert!(matches!(dict_key, DictKey::String(s) if s == b"k"));
            assert_eq!(*list_index, None);
        }
        _ => panic!("expected an array item"),
    }
    match &w.steps[1] {
        KeyStep::ArrayItem { key, dict_key, list_index, .. } => {
            assert_eq!(key, &b"$a['k'][2]".to_vec());
            assert!(matches!(dict_key, DictKey::Integer(2)));
            assert_eq!(*list_index, Some(2));
        }
        _ => panic!("expected an array item"),
    }
    match &w.steps[2] {
        KeyStep::Property { key, name } => {
            assert_eq!(key, &b"$a['k'][2]->p".to_vec());
            assert_eq!(name, &b"p".to_vec());
        }
        _ => panic!("expected a property"),
    }
}

#[test]
fn walking_static_properties_and_constants() {
    let w = plan_key_walk(b"A::$b->c").unwrap();
    assert_eq!(w.base_key, b"A::$b".to_vec());
    assert_eq!(w.class_constant, Some((b"A".to_vec(), b"$b".to_vec())));
    assert_eq!(w.steps.len(), 1);
    let w = plan_key_walk(b"Foo::BAR[0]").unwrap();
    assert_eq!(w.base_key, b"Foo::BAR".to_vec());
    assert_eq!(w.class_constant, Some((b"Foo".to_vec(), b"BAR".to_vec())));
    assert!(plan_key_walk(b"$a").is_none());
}

#[test]
fn unquoted_and_signed_array_keys_in_a_walk() {
    let w = plan_key_walk(b"$a[FOO]").unwrap();
    match &w.steps[0] {
        KeyStep::ArrayItem { dict_key, list_index, .. } => {
            assert!(matches!(dict_key, DictKey::String(s) if s == b"FOO"));
            assert_eq!(*list_index, None);
        }
        _ => panic!("expected an array item"),
    }
    let w = plan_key_walk(b"$a[+1]").unwrap();
    match &w.steps[0] {
        KeyStep::ArrayItem { dict_key, list_index, .. } => {
            assert!(matches!(dict_key, DictKey::String(s) if s == b"+1"));
            assert_eq!(*list_index, None);
        }
        _ => panic!("expected an array item"),
    }
}

#[test]
fn walks_that_stop_early() {
    let w = plan_key_walk(b"$a->").unwrap();
    assert!(!w.complete);
    assert!(w.steps.is_empty());
    let w = plan_key_walk(b"$a[1]").unwrap();
    assert!(w.complete);
    assert_eq!(w.steps.len(), 1);
}

#[test]
fn each_key_a_walk_reaches_extends_the_one_before() {
    let w = plan_key_walk(b"$o->a['x']->b[0]").unwrap();
    let mut previous = w.base_key.clone();
    for step in &w.steps {
        let key = match step {
            KeyStep::ArrayItem { key, .. } => key,
            KeyStep::Property { key, .. } => key,
        };
        assert!(key.starts_with(&previous));
        assert!(key.starts_with(&w.base_key));
        previous = key.clone();
    }
    assert_eq!(previous, b"$o->a['x']->b[0]".to_vec());
}
