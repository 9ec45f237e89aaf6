use palette_swap::plan::{same_text, starts_with};
use palette_swap::{
    file_extension, is_ase_extension, is_sprite_path, mirror_path, plan_batch, PlannedFile,
};

fn path(parts: &[&str]) -> Vec<String> {
    parts.iter().map(|p| p.to_string()).collect()
}

#[test]
fn sprite_extensions_are_ase_and_aseprite() {
    assert!(is_ase_extension(Some("ase")));
    assert!(is_ase_extension(Some("aseprite")));
}

#[test]
fn other_extensions_are_refused() {
    assert!(!is_ase_extension(None));
    assert!(!is_ase_extension(Some("")));
    assert!(!is_ase_extension(Some("txt")));
    assert!(!is_ase_extension(Some("as")));
    assert!(!is_ase_extension(Some("asep")));
    assert!(!is_ase_extension(Some("aseprites")));
    assert!(!is_ase_extension(Some(".ase")));
}

#[test]
fn extension_match_is_case_sensitive() {
    assert!(!is_ase_extension(Some("ASE")));
    assert!(!is_ase_extension(Some("Ase")));
    assert!(!is_ase_extension(Some("ASEPRITE")));
    assert!(!is_ase_extension(Some("asePrite")));
}

#[test]
fn same_text_compares_character_by_character() {
    assert!(same_text("", ""));
    assert!(same_text("ase", "ase"));
    assert!(!same_text("ase", "asf"));
    assert!(!same_text("ase", "as"));
    assert!(!same_text("", "a"));
    assert!(same_text("héllo", "héllo"));
    assert!(!same_text("héllo", "hello"));
}

#[test]
fn extension_is_what_follows_the_last_dot() {
    assert_eq!(file_extension("1.ase"), Some("ase".to_string()));
    assert_eq!(file_extension("2.aseprite"), Some("aseprite".to_string()));
    assert_eq!(file_extension("readme.txt"), Some("txt".to_string()));
    assert_eq!(file_extension("a.b.aseprite"), Some("aseprite".to_string()));
    assert_eq!(file_extension("archive.tar.gz"), Some("gz".to_string()));
    assert_eq!(file_extension("trailing."), Some(String::new()));
    assert_eq!(file_extension("é.ase"), Some("ase".to_string()));
    assert_eq!(file_extension("x.é"), Some("é".to_string()));
}

#[test]
fn names_without_an_inner_dot_have_no_extension() {
    assert_eq!(file_extension(""), None);
    assert_eq!(file_extension("readme"), None);
    assert_eq!(file_extension(".ase"), None);
    assert_eq!(file_extension(".hidden"), None);
    assert_eq!(file_extension("."), None);
    assert_eq!(file_extension(".."), None);
}

#[test]
fn hidden_name_with_a_second_dot_has_an_extension() {
    assert_eq!(file_extension(".hidden.ase"), Some("ase".to_string()));
    assert_eq!(file_extension("..."), Some(String::new()));
    assert_eq!(file_extension("..a"), Some("a".to_string()));
}

#[test]
fn sprite_path_goes_by_the_last_component() {
    assert!(is_sprite_path(&path(&["a", "1.ase"])));
    assert!(is_sprite_path(&path(&["a", "b", "2.aseprite"])));
    assert!(!is_sprite_path(&path(&["a", "readme.txt"])));
    assert!(!is_sprite_path(&path(&["a.ase", "readme"])));
    assert!(!is_sprite_path(&path(&["a", ".ase"])));
    assert!(!is_sprite_path(&path(&["a", "1.ASE"])));
    assert!(!is_sprite_path(&path(&[])));
}

#[test]
fn starts_with_compares_whole_components() {
    assert!(starts_with(&path(&["a", "b", "c"]), &path(&["a", "b"])));
    assert!(starts_with(&path(&["a", "b"]), &path(&["a", "b"])));
    assert!(starts_with(&path(&["a"]), &path(&[])));
    assert!(!starts_with(&path(&["a"]), &path(&["a", "b"])));
    assert!(!starts_with(&path(&["ab", "c"]), &path(&["a"])));
    assert!(!starts_with(&path(&["x", "b"]), &path(&["a"])));
}

#[test]
fn mirror_path_reroots_below_the_output() {
    assert_eq!(
        mirror_path(&path(&["a"]), &path(&["out"]), &path(&["a", "1.ase"])),
        Some(path(&["out", "1.ase"]))
    );
    assert_eq!(
        mirror_path(&path(&["a"]), &path(&["out"]), &path(&["a", "b", "2.aseprite"])),
        Some(path(&["out", "b", "2.aseprite"]))
    );
    assert_eq!(
        mirror_path(&path(&["in", "sprites"]), &path(&["x", "y", "z"]), &path(&["in", "sprites", "p", "q.ase"])),
        Some(path(&["x", "y", "z", "p", "q.ase"]))
    );
}

#[test]
fn mirror_path_of_the_root_is_the_output_root() {
    assert_eq!(mirror_path(&path(&["a"]), &path(&["out"]), &path(&["a"])), Some(path(&["out"])));
    assert_eq!(mirror_path(&path(&[]), &path(&[]), &path(&["f.ase"])), Some(path(&["f.ase"])));
}

#[test]
fn mirror_path_refuses_a_path_outside_the_root() {
    assert_eq!(mirror_path(&path(&["a"]), &path(&["out"]), &path(&["b", "1.ase"])), None);
    assert_eq!(mirror_path(&path(&["a", "b"]), &path(&["out"]), &path(&["a"])), None);
    assert_eq!(mirror_path(&path(&["a"]), &path(&["out"]), &path(&["ab", "1.ase"])), None);
}

#[test]
fn directory_scan_keeps_sprite_files_and_mirrors_the_tree() {
    let found = vec![
        path(&["a", "1.ase"]),
        path(&["a", "b", "2.aseprite"]),
        path(&["a", "readme.txt"]),
    ];
    let plan = plan_batch(&path(&["a"]), &path(&["out"]), &found);
    assert_eq!(
        plan,
        vec![
            PlannedFile { input: path(&["a", "1.ase"]), output: path(&["out", "1.ase"]) },
            PlannedFile {
                input: path(&["a", "b", "2.aseprite"]),
                output: path(&["out", "b", "2.aseprite"]),
            },
        ]
    );
    assert!(plan.iter().all(|file| file.output.last().map(String::as_str) != Some("readme.txt")));
}

#[test]
fn plan_keeps_the_order_found() {
    let found = vec![path(&["a", "z.ase"]), path(&["a", "m.txt"]), path(&["a", "a.ase"])];
    let plan = plan_batch(&path(&["a"]), &path(&["o"]), &found);
    assert_eq!(plan.len(), 2);
    assert_eq!(plan[0].input, path(&["a", "z.ase"]));
    assert_eq!(plan[1].input, path(&["a", "a.ase"]));
}

#[test]
fn plan_of_nothing_is_empty() {
    assert!(plan_batch(&path(&["a"]), &path(&["out"]), &vec![]).is_empty());
    let found = vec![path(&["a"]), path(&["a", "b"]), path(&["a", "b", "notes.md"])];
    assert!(plan_batch(&path(&["a"]), &path(&["out"]), &found).is_empty());
}

#[test]
fn plan_leaves_out_sprite_files_outside_the_root() {
    let found = vec![path(&["elsewhere", "1.ase"]), path(&["a", "2.ase"])];
    let plan = plan_batch(&path(&["a"]), &path(&["out"]), &found);
    assert_eq!(
        plan,
        vec![PlannedFile { input: path(&["a", "2.ase"]), output: path(&["out", "2.ase"]) }]
    );
}

#[test]
fn output_nested_in_the_input_is_planned_from_the_list_alone() {
    let found = vec![path(&["a", "1.ase"])];
    let plan = plan_batch(&path(&["a"]), &path(&["a", "out"]), &found);
    assert_eq!(
        plan,
        vec![PlannedFile { input: path(&["a", "1.ase"]), output: path(&["a", "out", "1.ase"]) }]
    );
}
