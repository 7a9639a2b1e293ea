use nwnarmory::rules::{load_transform_rules, NumberClass};

fn classify(t: &Vec<char>) -> NumberClass {
    let s: String = t.iter().collect();
    match s.parse::<f32>() {
        Ok(v) if v.is_finite() => NumberClass::Finite,
        Ok(_) => NumberClass::NotFinite,
        Err(_) => NumberClass::Invalid,
    }
}

fn text(v: &Vec<char>) -> String {
    v.iter().collect()
}

fn numbers(tokens: &Vec<Vec<char>>) -> Vec<f32> {
    tokens.iter().map(|t| text(t).parse::<f32>().unwrap()).collect()
}

fn load_error(path: &str, ini: &str) -> String {
    match load_transform_rules(path, ini, &classify).1 {
        Ok(_) => panic!("expected an error"),
        Err(e) => e.0,
    }
}

#[test]
fn malformed_ini_tuple_is_rejected_with_section_and_key() {
    let ini = "[Global]\nnTransforms=1\n[s0]\nmatch=x\nscale=(1, nope, 1)\n";
    let error = load_error("broken.ini", ini);
    assert!(
        error.contains("broken.ini")
            && error.contains("Section [s0]")
            && error.contains("Key 'scale'")
            && error.contains("invalid number"),
        "{error}"
    );
}

#[test]
fn ini_roundtrip() {
    let ini = r#"
[Global]
nTransforms=1

[s0]
match=pm??_belt???
substitute=??a*
Scale=(0.72, 0.72, 0.72)
"#;
    let transforms = load_transform_rules("<test>", ini, &classify).1.unwrap();
    assert_eq!(transforms.len(), 1);
    assert_eq!(numbers(&transforms[0].tuples[1]), vec![0.72f32, 0.72, 0.72]);
}

#[test]
fn omitted_keys_take_identity_defaults() {
    let ini = "[Global]\nnTransforms=1\n[s0]\nmatch=PM??_Belt???\n";
    let rules = load_transform_rules("r.ini", ini, &classify).1.unwrap();
    let r = &rules[0];
    assert_eq!(text(&r.match_pat), "pm??_belt???");
    assert_eq!(text(&r.substitute), "*");
    assert_eq!(numbers(&r.tuples[0]), vec![-999.0f32, -999.0, -999.0]);
    assert_eq!(numbers(&r.tuples[1]), vec![1.0f32, 1.0, 1.0]);
    assert_eq!(numbers(&r.tuples[2]), vec![0.0f32, 0.0, 0.0]);
    assert_eq!(numbers(&r.tuples[5]), vec![999.0f32, 999.0, 999.0]);
    assert_eq!(numbers(&r.tuples[7]), vec![0.0f32]);
    assert_eq!(numbers(&r.tuples[10]), vec![999.0f32, 999.0]);
    assert!(r.tbitmap.is_none());
}

#[test]
fn tbitmap_is_lowercased_and_empty_means_none() {
    let ini = "[Global]\nnTransforms=2\n[s0]\nmatch=a\ntbitmap=Armor_Diffuse\n[s1]\nmatch=b\ntbitmap=\n";
    let rules = load_transform_rules("r.ini", ini, &classify).1.unwrap();
    assert_eq!(text(rules[0].tbitmap.as_ref().unwrap()), "armor_diffuse");
    assert!(rules[1].tbitmap.is_none());
}

#[test]
fn global_errors_have_exact_texts() {
    assert_eq!(load_error("r.ini", "[s0]\nmatch=a\n"), "r.ini: Section [Global]: missing");
    assert_eq!(
        load_error("r.ini", "[Global]\n"),
        "r.ini: Section [Global], Key 'nTransforms': missing"
    );
    assert_eq!(
        load_error("r.ini", "[Global]\nnTransforms=two\n"),
        "r.ini: Section [Global], Key 'nTransforms': invalid number 'two'"
    );
    assert_eq!(
        load_error("r.ini", "[Global]\nnTransforms=0\n"),
        "r.ini: Section [Global], Key 'nTransforms': must be greater than 0"
    );
    assert_eq!(
        load_error("r.ini", "[Global]\nnTransforms=+2\n[s0]\nmatch=a\n"),
        "r.ini: Section [s1]: missing"
    );
}

#[test]
fn section_errors_have_exact_texts() {
    assert_eq!(
        load_error("r.ini", "[Global]\nnTransforms=1\n[s0]\nscale=(1,1,1)\n"),
        "r.ini: Section [s0], Key 'match': missing"
    );
    assert_eq!(
        load_error("r.ini", "[Global]\nnTransforms=1\n[s0]\nmatch=\n"),
        "r.ini: Section [s0], Key 'match': must not be empty"
    );
    assert_eq!(
        load_error("r.ini", "[Global]\nnTransforms=1\n[s0]\nmatch=a\nscale=1,1,1\n"),
        "r.ini: Section [s0], Key 'scale': expected a tuple, got '1,1,1'"
    );
    assert_eq!(
        load_error("r.ini", "[Global]\nnTransforms=1\n[s0]\nmatch=a\nscale=(1,,1)\n"),
        "r.ini: Section [s0], Key 'scale': empty value at position 2"
    );
    assert_eq!(
        load_error("r.ini", "[Global]\nnTransforms=1\n[s0]\nmatch=a\nscale=(1,inf,1)\n"),
        "r.ini: Section [s0], Key 'scale': number 'inf' is not finite"
    );
    assert_eq!(
        load_error("r.ini", "[Global]\nnTransforms=1\n[s0]\nmatch=a\ntscale=(1,1,1)\n"),
        "r.ini: Section [s0], Key 'tscale': expected 2 value(s), got 3"
    );
}

#[test]
fn position_is_checked_before_scale() {
    assert_eq!(
        load_error("r.ini", "[Global]\nnTransforms=1\n[s0]\nmatch=a\nscale=(x,1,1)\nposition=(y,1,1)\n"),
        "r.ini: Section [s0], Key 'position': invalid number 'y'"
    );
}

#[test]
fn ini_syntax_errors_have_exact_texts() {
    assert_eq!(load_error("r.ini", "[Global\n"), "r.ini:1: block header: unterminated header '[Global'");
    assert_eq!(
        load_error("r.ini", "; c\n[Global] x\n"),
        "r.ini:2: block header: unexpected content after '[...]'"
    );
    assert_eq!(load_error("r.ini", "[  ]\n"), "r.ini:1: block header: empty section name");
    assert_eq!(
        load_error("r.ini", "[A]\n[a]\n"),
        "r.ini:2: Section [a]: defined twice"
    );
    assert_eq!(
        load_error("r.ini", "novalue\n"),
        "r.ini:1: Section [global]: key/value without '='"
    );
    assert_eq!(load_error("r.ini", "[s]\n =x\n"), "r.ini:2: Section [s]: empty key");
    assert_eq!(
        load_error("r.ini", "[s]\nKey=1\nkey = 2\n"),
        "r.ini:3: Section [s], Key 'key': defined twice"
    );
}

#[test]
fn keys_before_any_header_belong_to_global() {
    let ini = "nTransforms = 1\r\n[s0]\r\nmatch = x\r\n";
    let rules = load_transform_rules("r.ini", ini, &classify).1.unwrap();
    assert_eq!(rules.len(), 1);
    assert_eq!(text(&rules[0].match_pat), "x");
}

#[test]
fn unknown_keys_are_reported_with_their_section() {
    let ini = "[Global]\nnTransforms=1\n[s0]\nmatch=a\nscael=(1,1,1)\n";
    let (warnings, result) = load_transform_rules("r.ini", ini, &classify);
    assert!(result.is_ok());
    assert_eq!(warnings.len(), 1);
    assert_eq!(text(&warnings[0].0), "s0");
    assert_eq!(text(&warnings[0].1), "scael");
}

#[test]
fn ini_sections_keys_and_values() {
    let ini = nwnarmory::ini::parse_ini_with_path("a.ini", "x = 1\n[Sec]\n Key =  some value \n# note\n", false).unwrap();
    assert_eq!(ini.sections.len(), 2);
    assert_eq!(text(&ini.sections[0].name), "global");
    assert_eq!(text(&ini.sections[1].name), "sec");
    assert_eq!(text(&nwnarmory::ini::get_str(&ini.sections[1], "key", "d")), "some value");
    assert_eq!(text(&nwnarmory::ini::get_str(&ini.sections[1], "other", "d")), "d");
    match nwnarmory::ini::parse_ini_with_path("a.ini", "[x\n", false) {
        Ok(_) => panic!("expected an error"),
        Err(e) => assert_eq!(e.0, "a.ini:1: block header: unterminated header '[x'"),
    }
}
