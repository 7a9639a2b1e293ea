use nwnarmory::model::{
    model_error, parse_bitmap_mode, parse_block_count, temporary_file_name, BitmapMode,
};
use nwnarmory::rewrite::{ItemKind, LineAction, ModelRewriter};
use nwnarmory::rules::NumberClass;

fn classify(t: &Vec<char>) -> NumberClass {
    let s: String = t.iter().collect();
    match s.parse::<f32>() {
        Ok(v) if v.is_finite() => NumberClass::Finite,
        Ok(_) => NumberClass::NotFinite,
        Err(_) => NumberClass::Invalid,
    }
}

fn text(v: &Vec<char>) -> String {
    v.iter().collect()
}

fn run(rw: &mut ModelRewriter, input: &str) -> Vec<LineAction> {
    let mut out = Vec::new();
    for line in input.lines() {
        let a = rw.step(Some(line), &classify);
        let stop = matches!(a, LineAction::Fail(_));
        out.push(a);
        if stop {
            return out;
        }
    }
    out.push(rw.step(None, &classify));
    out
}

fn written(a: &LineAction) -> String {
    match a {
        LineAction::Write(s) => s.clone(),
        _ => panic!("expected a written line"),
    }
}

fn failure(a: &LineAction) -> String {
    match a {
        LineAction::Fail(s) => s.clone(),
        _ => panic!("expected a failure"),
    }
}

#[test]
fn malformed_mdl_header_is_rejected_with_context() {
    let mut rw = ModelRewriter::new("/tmp/x/broken.mdl", "broken", "broken", "broken", BitmapMode::Keep, BitmapMode::Keep);
    let acts = run(&mut rw, "newmodel broken\nverts nope\n");
    let error = failure(acts.last().unwrap());
    assert!(
        error.contains("broken.mdl:2")
            && error.contains("Block 'verts'")
            && error.contains("invalid quantity"),
        "{error}"
    );
}

#[test]
fn setsupermodel_rewrites_both_model_and_supermodel_name() {
    let mut rw = ModelRewriter::new("pmh0_robe112.mdl", "pmh0_robe112", "pma0_robe112", "??a*", BitmapMode::Keep, BitmapMode::Keep);
    let acts = run(
        &mut rw,
        "newmodel pmh0_robe112\nsetsupermodel pmh0_robe112 pmh0\ndonemodel pmh0_robe112\n",
    );
    assert_eq!(written(&acts[0]), "newmodel pma0_robe112");
    assert_eq!(written(&acts[1]), "setsupermodel pma0_robe112 pma0");
    assert_eq!(written(&acts[2]), "donemodel pma0_robe112");
    assert!(matches!(acts[3], LineAction::Done));
}

#[test]
fn absolute_position_only_overrides_the_first_node() {
    let mut rw = ModelRewriter::new("pmh0_test.mdl", "pmh0_test", "pma0_test", "??a*", BitmapMode::Keep, BitmapMode::Keep);
    let acts = run(
        &mut rw,
        "newmodel pmh0_test\nbeginmodelgeom pmh0_test\nnode dummy rootdummy\nparent NULL\nposition 1.0 2.0 3.0\nendnode\nnode trimesh child_g\nparent rootdummy\nposition 0.5 0.5 0.5\nendnode\nendmodelgeom pmh0_test\ndonemodel pmh0_test\n",
    );
    let positions: Vec<(bool, Vec<String>)> = acts
        .iter()
        .filter_map(|a| match a {
            LineAction::Position { tokens, first } => {
                Some((*first, tokens.iter().map(text).collect()))
            }
            _ => None,
        })
        .collect();
    assert_eq!(positions.len(), 2);
    assert_eq!(positions[0], (true, vec!["1.0".to_string(), "2.0".to_string(), "3.0".to_string()]));
    assert_eq!(positions[1], (false, vec!["0.5".to_string(), "0.5".to_string(), "0.5".to_string()]));
}

#[test]
fn blocks_hand_out_their_number_lines() {
    let mut rw = ModelRewriter::new("m.mdl", "source", "target", "target", BitmapMode::Keep, BitmapMode::Keep);
    let acts = run(
        &mut rw,
        "node dummy source\n  bitmap Armor_Diffuse\n  verts 1\n    0 0 0\n  tverts 1\n    0.25 0.5 0.5\n  tangents 1\n 1 0 0 -1\n  tverts2 1\n 1 1 0\nendnode\n",
    );
    assert_eq!(written(&acts[0]), "node dummy target");
    assert_eq!(written(&acts[1]), "  bitmap Armor_Diffuse");
    assert_eq!(written(&acts[2]), "  verts 1");
    match &acts[3] {
        LineAction::Item { kind, tokens, line, .. } => {
            assert!(*kind == ItemKind::Vertex);
            assert_eq!(tokens.len(), 3);
            assert_eq!(line, "    0 0 0");
        }
        _ => panic!("expected a vertex"),
    }
    match &acts[5] {
        LineAction::Item { kind, bitmap, .. } => {
            assert!(*kind == ItemKind::Texture);
            assert_eq!(text(bitmap), "armor_diffuse");
        }
        _ => panic!("expected a texture vertex"),
    }
    match &acts[7] {
        LineAction::Item { kind, tokens, .. } => {
            assert!(*kind == ItemKind::Tangent);
            assert_eq!(tokens.len(), 4);
        }
        _ => panic!("expected a tangent"),
    }
    match &acts[9] {
        LineAction::Item { kind, .. } => assert!(*kind == ItemKind::ExtraTexture),
        _ => panic!("expected an extra texture vertex"),
    }
    assert_eq!(written(&acts[10]), "endnode");
    assert!(matches!(acts[11], LineAction::Done));
}

#[test]
fn block_errors_name_line_and_block() {
    let mut rw = ModelRewriter::new("m.mdl", "m", "n", "n", BitmapMode::Keep, BitmapMode::Keep);
    let acts = run(&mut rw, "verts 2\n  0 0 0\n");
    assert_eq!(failure(acts.last().unwrap()), "m.mdl:3: Block 'verts': unexpected end of file");
    let mut rw = ModelRewriter::new("m.mdl", "m", "n", "n", BitmapMode::Keep, BitmapMode::Keep);
    let acts = run(&mut rw, "verts 1\n  0 x 0\n");
    assert_eq!(failure(acts.last().unwrap()), "m.mdl:2: Block 'verts': invalid number in '  0 x 0'");
    let mut rw = ModelRewriter::new("m.mdl", "m", "n", "n", BitmapMode::Keep, BitmapMode::Keep);
    let acts = run(&mut rw, "Normals 1\n  0 1\n");
    assert_eq!(failure(acts.last().unwrap()), "m.mdl:2: Block 'normals': 3 numbers expected, received 2");
    let mut rw = ModelRewriter::new("m.mdl", "m", "n", "n", BitmapMode::Keep, BitmapMode::Keep);
    let acts = run(&mut rw, "verts\n");
    assert_eq!(failure(acts.last().unwrap()), "m.mdl:1: Block 'verts': Quantity missing");
    let mut rw = ModelRewriter::new("m.mdl", "m", "n", "n", BitmapMode::Keep, BitmapMode::Keep);
    let acts = run(&mut rw, "position 1 2\n");
    assert_eq!(failure(acts.last().unwrap()), "m.mdl:1: Block 'position': 3 numbers expected, received 2");
    let mut rw = ModelRewriter::new("m.mdl", "m", "n", "n", BitmapMode::Keep, BitmapMode::Keep);
    let acts = run(&mut rw, "position 1  x 2\n");
    assert_eq!(failure(acts.last().unwrap()), "m.mdl:1: Block 'position': invalid number in '1 x 2'");
    let mut rw = ModelRewriter::new("m.mdl", "m", "n", "n", BitmapMode::Keep, BitmapMode::Keep);
    let acts = run(&mut rw, "bitmap\n");
    assert_eq!(failure(acts.last().unwrap()), "m.mdl:1: Block 'bitmap': Key/Value missing");
    let mut rw = ModelRewriter::new("m.mdl", "m", "n", "n", BitmapMode::Keep, BitmapMode::Keep);
    let acts = run(&mut rw, "setsupermodel m\n");
    assert_eq!(failure(acts.last().unwrap()), "m.mdl:1: Block 'setsupermodel': supermodel name missing");
}

#[test]
fn bitmap_modes() {
    let line = "  bitmap Source_Tex";
    let mut rw = ModelRewriter::new("m.mdl", "source", "target", "*", BitmapMode::Keep, BitmapMode::Keep);
    assert_eq!(written(&rw.step(Some(line), &classify)), "  bitmap Source_Tex");
    let mut rw = ModelRewriter::new("m.mdl", "source", "target", "*", BitmapMode::RenameToModel, BitmapMode::Keep);
    assert_eq!(written(&rw.step(Some(line), &classify)), "  bitmap target_Tex");
    let mut rw = ModelRewriter::new("m.mdl", "source", "target", "*", BitmapMode::RenameTo("target_diffuse".to_string()), BitmapMode::Keep);
    assert_eq!(written(&rw.step(Some(line), &classify)), "  bitmap target_diffuse");
}

#[test]
fn file_dependency_lines_are_copied_verbatim() {
    let mut rw = ModelRewriter::new("m.mdl", "source", "target", "*", BitmapMode::Keep, BitmapMode::Keep);
    assert_eq!(written(&rw.step(Some("filedependancy source.max"), &classify)), "filedependancy source.max");
    assert_eq!(written(&rw.step(Some("other source.max"), &classify)), "other target.max");
}

#[test]
fn bitmap_mode_from_arguments() {
    let args = |v: &[&str]| v.iter().map(|s| s.to_string()).collect::<Vec<String>>();
    assert!(matches!(parse_bitmap_mode(&args(&["a", "b"])), BitmapMode::Keep));
    assert!(matches!(parse_bitmap_mode(&args(&["--rename-bitmap", "b"])), BitmapMode::RenameToModel));
    match parse_bitmap_mode(&args(&["x", "--rename-bitmap=tex", "--rename-bitmap"])) {
        BitmapMode::RenameTo(n) => assert_eq!(n, "tex"),
        _ => panic!("expected a fixed name"),
    }
}

#[test]
fn model_error_and_block_count() {
    assert_eq!(model_error("a.mdl", 7, "verts", "oops"), "a.mdl:7: Block 'verts': oops");
    assert_eq!(parse_block_count("a.mdl", 3, "verts", Some("12")).unwrap(), 12);
    assert_eq!(
        parse_block_count("a.mdl", 3, "verts", None).unwrap_err(),
        "a.mdl:3: Block 'verts': Quantity missing"
    );
    assert_eq!(
        parse_block_count("a.mdl", 3, "verts", Some("-1")).unwrap_err(),
        "a.mdl:3: Block 'verts': invalid quantity '-1'"
    );
}

#[test]
fn temporary_names() {
    assert_eq!(temporary_file_name("out/a.mdl", Some("a.mdl")).unwrap(), "a.mdl.tmp");
    assert_eq!(
        temporary_file_name("/", None).unwrap_err(),
        "target path '/' has no file name"
    );
    assert_eq!(nwnarmory::model::temporary_path("out/a.mdl").unwrap(), "out/a.mdl.tmp");
}

#[test]
fn temporary_path_of_plain_and_nameless_paths() {
    assert_eq!(nwnarmory::model::temporary_path("b.mdl").unwrap(), "b.mdl.tmp");
    let sep = std::path::MAIN_SEPARATOR;
    assert_eq!(
        nwnarmory::model::temporary_path("/data/out//c.mdl").unwrap(),
        format!("/data/out{sep}c.mdl.tmp")
    );
    assert_eq!(nwnarmory::model::temporary_path("/c.mdl").unwrap(), "/c.mdl.tmp");
    assert_eq!(
        nwnarmory::model::temporary_path("out/..").unwrap_err(),
        "target path 'out/..' has no file name"
    );
    assert_eq!(
        nwnarmory::model::temporary_path("").unwrap_err(),
        "target path '' has no file name"
    );
}

#[test]
fn rewriter_rejects_ill_defined_lines() {
    let mut rw = ModelRewriter::new("m.mdl", "m", "n", "n", BitmapMode::Keep, BitmapMode::Keep);
    let acts = run(&mut rw, "setsupermodel\n");
    assert_eq!(failure(acts.last().unwrap()), "m.mdl:1: Block 'setsupermodel': model name missing");
    let mut rw = ModelRewriter::new("m.mdl", "source", "target", "*", BitmapMode::Keep, BitmapMode::Keep);
    let acts = run(&mut rw, "note source\n\u{212A} source\n");
    assert_eq!(written(&acts[0]), "note target");
    assert_eq!(
        failure(acts.last().unwrap()),
        "m.mdl:2: Block 'k': text cannot be matched case-insensitively"
    );
}

#[test]
fn weights_and_constraints_are_counted_blocks_copied_unchanged() {
    let mut rw = ModelRewriter::new("m.mdl", "source", "target", "*", BitmapMode::Keep, BitmapMode::Keep);
    let acts = run(&mut rw, "weights 2\n  rootdummy 1.0\n  source_bone 0.5 other 0.5\nnode source\n");
    assert_eq!(written(&acts[0]), "weights 2");
    assert_eq!(written(&acts[1]), "  rootdummy 1.0");
    assert_eq!(written(&acts[2]), "  source_bone 0.5 other 0.5");
    assert_eq!(written(&acts[3]), "node target");
    assert!(matches!(acts[4], LineAction::Done));

    let mut rw = ModelRewriter::new("m.mdl", "source", "target", "*", BitmapMode::Keep, BitmapMode::Keep);
    let acts = run(&mut rw, "weights 2\n  rootdummy 1.0\n");
    let msg = failure(acts.last().unwrap());
    assert!(msg.contains("Block 'weights'"));
    assert!(msg.contains("unexpected end of file"));
    assert_eq!(msg, "m.mdl:3: Block 'weights': unexpected end of file");

    let mut rw = ModelRewriter::new("m.mdl", "source", "target", "*", BitmapMode::Keep, BitmapMode::Keep);
    let acts = run(&mut rw, "Constraints 1\n");
    assert_eq!(failure(acts.last().unwrap()), "m.mdl:2: Block 'constraints': unexpected end of file");
    let mut rw = ModelRewriter::new("m.mdl", "source", "target", "*", BitmapMode::Keep, BitmapMode::Keep);
    let acts = run(&mut rw, "constraints x\n");
    assert_eq!(failure(acts.last().unwrap()), "m.mdl:1: Block 'constraints': invalid quantity 'x'");
}

#[test]
fn materialname_follows_its_own_option() {
    let input = "  materialname source_mat\n";
    let mut rw = ModelRewriter::new("m.mdl", "source", "target", "*", BitmapMode::Keep, BitmapMode::Keep);
    assert_eq!(written(&run(&mut rw, input)[0]), "  materialname source_mat");
    let mut rw = ModelRewriter::new("m.mdl", "source", "target", "*", BitmapMode::Keep, BitmapMode::RenameToModel);
    assert_eq!(written(&run(&mut rw, input)[0]), "  materialname target_mat");
    let mut rw = ModelRewriter::new(
        "m.mdl",
        "source",
        "target",
        "*",
        BitmapMode::Keep,
        BitmapMode::RenameTo("mat01".to_string()),
    );
    assert_eq!(written(&run(&mut rw, input)[0]), "  materialname mat01");
    let mut rw = ModelRewriter::new("m.mdl", "source", "target", "*", BitmapMode::RenameToModel, BitmapMode::Keep);
    assert_eq!(written(&run(&mut rw, input)[0]), "  materialname source_mat");
}
