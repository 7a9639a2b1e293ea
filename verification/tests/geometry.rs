use nwnarmory::geometry::{GeoAction, GeometryReader};
use nwnarmory::rules::NumberClass;

fn classify(t: &Vec<char>) -> NumberClass {
    let s: String = t.iter().collect();
    match s.parse::<f64>() {
        Ok(v) if v.is_finite() => NumberClass::Finite,
        Ok(_) => NumberClass::NotFinite,
        Err(_) => NumberClass::Invalid,
    }
}

fn run(input: &str) -> Vec<GeoAction> {
    let mut r = GeometryReader::new("g.mdl");
    let mut out = Vec::new();
    for line in input.lines() {
        let a = r.step(Some(line), &classify);
        let stop = matches!(a, GeoAction::Fail(_));
        out.push(a);
        if stop {
            return out;
        }
    }
    out.push(r.step(None, &classify));
    out
}

#[test]
fn geometry_picks_vertices_texture_vertices_and_positions() {
    let acts = run("verts 1\n 1 2 3 4\ntverts 1\n 0.5 0.25 0\nposition 1 2 3\nfoo\n");
    assert!(matches!(&acts[1], GeoAction::Vertex(t) if t.len() == 3));
    assert!(matches!(&acts[3], GeoAction::Texture(t) if t.len() == 2));
    assert!(matches!(&acts[4], GeoAction::Position(t) if t.len() == 3));
    assert!(matches!(acts[5], GeoAction::Skip));
    assert!(matches!(acts[6], GeoAction::Done));
}

#[test]
fn geometry_errors() {
    let fail = |input: &str| match run(input).pop().unwrap() {
        GeoAction::Fail(m) => m,
        _ => panic!("expected a failure"),
    };
    assert_eq!(fail("verts\n"), "g.mdl:1: Block 'verts': Count missing");
    assert_eq!(fail("tverts x\n"), "g.mdl:1: Block 'tverts': invalid count 'x'");
    assert_eq!(fail("verts 2\n1 2 3\n"), "g.mdl:3: Block 'verts': unexpected end of file");
    assert_eq!(fail("verts 1\n1 2\n"), "g.mdl:2: Block 'verts': at least 3 finite numbers expected");
    assert_eq!(fail("tverts 1\n1 a\n"), "g.mdl:2: Block 'tverts': invalid number");
    assert_eq!(fail("position 1 2\n"), "g.mdl:1: Block 'position': exactly 3 finite numbers expected");
    assert_eq!(fail("position 1 2 nan\n"), "g.mdl:1: Block 'position': exactly 3 finite numbers expected");
}
