use mago_analyzer::path::{break_up_path_into_parts, rerooted_key};

fn parts(path: &[u8]) -> Vec<Vec<u8>> {
    break_up_path_into_parts(path)
}

#[test]
fn test_consecutive_tokens() {
    let path = b"$service_name->prop[0]->foo::$prop";
    let expected: Vec<&[u8]> =
        vec![b"$service_name", b"->", b"prop", b"[", b"0", b"]", b"->", b"foo", b"::$", b"prop"];
    let result = break_up_path_into_parts(path);
    assert_eq!(result, expected);
}

#[test]
fn empty_path_has_one_empty_part() {
    assert_eq!(parts(b""), vec![Vec::<u8>::new()]);
}

#[test]
fn plain_variable_is_one_part() {
    assert_eq!(parts(b"$a"), vec![b"$a".to_vec()]);
}

#[test]
fn nested_brackets_stay_in_the_key() {
    let expected: Vec<&[u8]> = vec![b"$a", b"[", b"$b[0]", b"]"];
    assert_eq!(parts(b"$a[$b[0]]"), expected);
}

#[test]
fn quoted_dividers_stay_in_the_key() {
    let expected: Vec<&[u8]> = vec![b"$a", b"[", b"'x->y]'", b"]"];
    assert_eq!(parts(b"$a['x->y]']"), expected);
}

#[test]
fn escaped_quote_does_not_close_the_string() {
    let expected: Vec<&[u8]> = vec![b"$a", b"[", b"'x\\'[y'", b"]"];
    assert_eq!(parts(b"$a['x\\'[y']"), expected);
}

#[test]
fn double_colon_without_dollar_is_kept() {
    let expected: Vec<&[u8]> = vec![b"A::B"];
    assert_eq!(parts(b"A::B"), expected);
}

#[test]
fn static_property_divider() {
    let expected: Vec<&[u8]> = vec![b"A", b"::$", b"b"];
    assert_eq!(parts(b"A::$b"), expected);
}

#[test]
fn leading_divider_takes_the_empty_first_part() {
    let expected: Vec<&[u8]> = vec![b"->", b"x"];
    assert_eq!(parts(b"->x"), expected);
}

#[test]
fn unbalanced_closing_bracket_is_kept() {
    let expected: Vec<&[u8]> = vec![b"$a]b"];
    assert_eq!(parts(b"$a]b"), expected);
}

#[test]
fn parts_spell_the_path() {
    for path in [&b"$a->b['c'][$d]::$e"[..], b"x[[y]]->", b"'a->b'", b"$a?->b", b"::$::$"] {
        let joined: Vec<u8> = parts(path).concat();
        assert_eq!(joined, path.to_vec());
        assert!(parts(path).iter().all(|p| !p.is_empty()));
    }
}

#[test]
fn rerooting_a_key_keeps_everything_after_the_root() {
    assert_eq!(rerooted_key(b"$a->b['c']", b"$ref"), b"$ref->b['c']".to_vec());
    assert_eq!(rerooted_key(b"$a[0][1]", b"$x"), b"$x[0][1]".to_vec());
    assert_eq!(rerooted_key(b"$a", b"$x"), b"$x".to_vec());
    assert_eq!(rerooted_key(b"A::$b", b"$x"), b"$x::$b".to_vec());
    assert_eq!(rerooted_key(b"", b"$x"), b"$x".to_vec());
}
