use std::path::Path;
use zellij_sessions::install::{
    accept_script, completion_script_name, expand_tilde, get_shell_completion_dir,
    has_script_ending, install_completion, install_script, is_completion_for, is_executable,
    is_installable, link_name, path_lists_dir, select_script, BaseDir, CopyPlan, LinkPlan,
    PlaceTaken, ScriptChoice, ScriptProblem,
};

fn strings(items: &[&str]) -> Vec<String> {
    items.iter().map(|s| s.to_string()).collect()
}

#[test]
fn a_link_is_named_like_the_script_without_its_ending() {
    assert_eq!(link_name("z.rs"), "z");
    assert_eq!(link_name("install.rs"), "install");
    assert_eq!(link_name("tool"), "tool");
    assert_eq!(link_name("a.rs.rs"), "a.rs");
    assert_eq!(link_name(".rs"), "");
    assert_eq!(link_name("rs"), "rs");
    assert_eq!(link_name("x.rs.bak"), "x.rs.bak");
    assert_eq!(link_name(""), "");
}

#[test]
fn a_completion_names_its_script() {
    assert_eq!(completion_script_name("z.fish", "fish"), "z");
    assert_eq!(completion_script_name("z.fish.fish", "fish"), "z");
    assert_eq!(completion_script_name("z.bash", "fish"), "z.bash");
    assert_eq!(completion_script_name(".fish", "fish"), "");
    assert_eq!(completion_script_name("dots...", ""), "dots");
    assert_eq!(completion_script_name("fish", "fish"), "fish");
}

#[test]
fn a_completion_matches_the_files_it_names() {
    for (file, shell) in [("z.fish", "fish"), ("a.b.zsh", "zsh"), ("x.fish.fish", "fish")] {
        assert_eq!(
            completion_script_name(file, shell),
            file.trim_end_matches(&format!(".{shell}"))
        );
    }
}

#[test]
fn a_completion_belongs_to_a_script_of_its_name() {
    let scripts = strings(&["meta.rs", "z.rs", "plain"]);
    assert!(is_completion_for("z.fish", "fish", &scripts));
    assert!(is_completion_for("plain.fish", "fish", &scripts));
    assert!(is_completion_for("meta.zsh", "zsh", &scripts));
    assert!(!is_completion_for("z.bash", "fish", &scripts));
    assert!(!is_completion_for("other.fish", "fish", &scripts));
    assert!(!is_completion_for("z", "fish", &scripts));
    assert!(!is_completion_for("z.fish", "fish", &vec![]));
    assert!(is_completion_for("z.rs.fish", "fish", &scripts));
}

#[test]
fn each_shell_has_its_place_for_completions() {
    assert_eq!(
        get_shell_completion_dir("fish"),
        Some((BaseDir::Home, strings(&[".config", "fish", "completions"])))
    );
    assert_eq!(
        get_shell_completion_dir("bash"),
        Some((BaseDir::DataLocal, strings(&["bash-completion", "completions"])))
    );
    assert_eq!(
        get_shell_completion_dir("zsh"),
        Some((BaseDir::DataLocal, strings(&["zsh", "site-functions"])))
    );
    assert_eq!(get_shell_completion_dir("nu"), None);
    assert_eq!(get_shell_completion_dir("Fish"), None);
    assert_eq!(get_shell_completion_dir(""), None);
}

#[test]
fn only_a_leading_tilde_and_slash_mean_home() {
    assert_eq!(expand_tilde("~/bin"), Some("bin".to_string()));
    assert_eq!(expand_tilde("~/"), Some("".to_string()));
    assert_eq!(expand_tilde("~/a/b"), Some("a/b".to_string()));
    assert_eq!(expand_tilde("~"), None);
    assert_eq!(expand_tilde("~user/bin"), None);
    assert_eq!(expand_tilde("/usr/bin"), None);
    assert_eq!(expand_tilde("x~/bin"), None);
    assert_eq!(expand_tilde(""), None);
}

#[test]
fn a_search_path_lists_what_stands_between_its_colons() {
    assert!(path_lists_dir("/usr/bin:/home/me/bin:/bin", "/home/me/bin"));
    assert!(path_lists_dir("/home/me/bin", "/home/me/bin"));
    assert!(path_lists_dir("/usr/bin:/bin", "/bin"));
    assert!(path_lists_dir("/usr/bin:/bin", "/usr/bin"));
    assert!(!path_lists_dir("/usr/bin:/bin", "/usr"));
    assert!(!path_lists_dir("/usr/bin:/bin", "bin"));
    assert!(!path_lists_dir("/usr/bin:/bin", "/usr/bin:/bin"));
    assert!(path_lists_dir("/usr/bin:", ""));
    assert!(path_lists_dir("", ""));
    assert!(!path_lists_dir("/usr/bin", ""));
}

#[test]
fn a_search_path_is_read_as_its_split_is() {
    for (path, dir) in [("a:b:c", "b"), ("a:b:c", "d"), (":a", ""), ("a::b", ""), ("ab", "a")] {
        assert_eq!(path_lists_dir(path, dir), path.split(':').any(|p| p == dir));
    }
}

#[test]
fn any_execute_bit_makes_a_file_executable() {
    assert!(is_executable(0o755));
    assert!(is_executable(0o100));
    assert!(is_executable(0o010));
    assert!(is_executable(0o001));
    assert!(is_executable(0o100644 | 0o001));
    assert!(!is_executable(0o644));
    assert!(!is_executable(0o666));
    assert!(!is_executable(0));
}

#[test]
fn a_link_is_made_where_the_place_allows_it() {
    assert_eq!(install_script(true, true, true), Ok(LinkPlan::AlreadyInstalled));
    assert_eq!(install_script(true, false, true), Ok(LinkPlan::Update));
    assert_eq!(install_script(true, false, false), Ok(LinkPlan::Update));
    assert_eq!(install_script(false, false, true), Err(PlaceTaken));
    assert_eq!(install_script(false, true, true), Err(PlaceTaken));
    assert_eq!(install_script(false, false, false), Ok(LinkPlan::Create));
}

#[test]
fn a_completion_is_copied_unless_it_is_in_place() {
    assert_eq!(install_completion(true, true, false), CopyPlan::AlreadyInstalled);
    assert_eq!(install_completion(true, false, false), CopyPlan::Copy);
    assert_eq!(install_completion(true, false, true), CopyPlan::AlreadyInstalled);
    assert_eq!(install_completion(false, false, false), CopyPlan::Copy);
    assert_eq!(install_completion(false, true, true), CopyPlan::Copy);
}

#[test]
fn a_script_has_the_extension_of_one() {
    for name in ["z.rs", "install.rs", "a.b.rs", "..rs", "x.rs.rs"] {
        assert!(has_script_ending(name), "{name}");
    }
    for name in [".rs", "rs", "z", "z.rs.bak", "z.RS", "z.r", "", "zrs", "z.rs "] {
        assert!(!has_script_ending(name), "{name}");
    }
}

#[test]
fn a_script_name_is_judged_as_its_extension_is() {
    for name in ["z.rs", ".rs", "..rs", "a.rs.rs", "rs", "a.", "a.rss", ".a.rs", "...", "a.rs."] {
        let expected = Path::new(name).extension().map_or(false, |e| e == "rs");
        assert_eq!(has_script_ending(name), expected, "{name}");
    }
}

#[test]
fn a_script_asked_for_by_name_is_looked_up_with_its_ending_first() {
    assert_eq!(select_script("z", true, true), Ok(ScriptChoice::WithEnding));
    assert_eq!(select_script("z", true, false), Ok(ScriptChoice::WithEnding));
    assert_eq!(select_script("z.rs", true, true), Ok(ScriptChoice::WithEnding));
    assert_eq!(select_script("z.rs", false, true), Ok(ScriptChoice::AsNamed));
    assert_eq!(select_script("z", false, true), Err(ScriptProblem::NotFound));
    assert_eq!(select_script("z.rs", false, false), Err(ScriptProblem::NotFound));
    assert_eq!(select_script(".rs", false, true), Err(ScriptProblem::NotFound));
}

#[test]
fn a_script_asked_for_by_name_must_be_a_file_that_may_be_executed() {
    assert_eq!(accept_script(true, Some(0o755)), Ok(()));
    assert_eq!(accept_script(true, Some(0o644)), Err(ScriptProblem::NotExecutable));
    assert_eq!(accept_script(true, None), Ok(()));
    assert_eq!(accept_script(false, Some(0o755)), Err(ScriptProblem::NotAFile));
    assert_eq!(accept_script(false, None), Err(ScriptProblem::NotAFile));
}

#[test]
fn only_executable_script_files_are_picked_up() {
    assert!(is_installable("z.rs", true, Some(0o755)));
    assert!(is_installable("z.rs", true, Some(0o700)));
    assert!(!is_installable("z.rs", true, Some(0o644)));
    assert!(!is_installable("z.rs", true, None));
    assert!(!is_installable("z.rs", false, Some(0o755)));
    assert!(!is_installable("z.sh", true, Some(0o755)));
    assert!(!is_installable(".rs", true, Some(0o755)));
}
