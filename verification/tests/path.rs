use kecs::path::{components, relative_key, split, PathError};

fn texts(runs: Vec<Vec<char>>) -> Vec<String> {
    runs.into_iter().map(|run| run.into_iter().collect()).collect()
}

#[test]
fn a_file_under_the_root_has_its_relative_path_as_key() {
    assert_eq!(relative_key("/data/root/a.txt", "/data/root", '/'), Ok("a.txt".to_string()));
    assert_eq!(
        relative_key("/data/root/sub/dir/b.bin", "/data/root", '/'),
        Ok("sub/dir/b.bin".to_string())
    );
    assert_eq!(relative_key("/data/root/a.txt", "/data/root/", '/'), Ok("a.txt".to_string()));
    assert_eq!(relative_key("/a.txt", "/", '/'), Ok("a.txt".to_string()));
}

#[test]
fn a_file_outside_the_root_has_no_key() {
    assert_eq!(relative_key("/data/other/a.txt", "/data/root", '/'), Err(PathError::OutsideRoot));
    assert_eq!(relative_key("/data", "/data/root", '/'), Err(PathError::OutsideRoot));
    assert_eq!(relative_key("/a.txt", "/data/root", '/'), Err(PathError::OutsideRoot));
}

#[test]
fn the_root_is_held_by_components_not_by_chars() {
    assert_eq!(relative_key("/data/root2/a.txt", "/data/root", '/'), Err(PathError::OutsideRoot));
    assert_eq!(relative_key("/data/roo/a.txt", "/data/root", '/'), Err(PathError::OutsideRoot));
}

#[test]
fn parent_components_cannot_lead_out_of_the_root_unnoticed() {
    assert_eq!(
        relative_key("/data/root/../other/a.txt", "/data/root", '/'),
        Err(PathError::OutsideRoot)
    );
    assert_eq!(
        relative_key("/data/root/sub/../../../etc/passwd", "/data/root", '/'),
        Err(PathError::OutsideRoot)
    );
    assert_eq!(
        relative_key("/data/root/sub/../a.txt", "/data/root", '/'),
        Ok("a.txt".to_string())
    );
    assert_eq!(
        relative_key("/data/other/../root/a.txt", "/data/root", '/'),
        Ok("a.txt".to_string())
    );
    assert_eq!(relative_key("/../data/root/a.txt", "/data/root", '/'), Ok("a.txt".to_string()));
}

#[test]
fn empty_and_current_dir_components_fall_away() {
    assert_eq!(
        relative_key("/data//root/./sub///a.txt", "/data/root/.", '/'),
        Ok("sub/a.txt".to_string())
    );
    assert_eq!(relative_key("/data/root/a.txt/", "/data/root", '/'), Ok("a.txt".to_string()));
}

#[test]
fn the_root_itself_has_the_empty_key() {
    assert_eq!(relative_key("/data/root", "/data/root", '/'), Ok(String::new()));
    assert_eq!(relative_key("/data/root/sub/..", "/data/root", '/'), Ok(String::new()));
}

#[test]
fn the_platform_separator_becomes_a_slash() {
    assert_eq!(
        relative_key("C:\\data\\root\\sub\\a.txt", "C:\\data\\root", '\\'),
        Ok("sub/a.txt".to_string())
    );
    assert_eq!(
        relative_key("C:\\data\\root/sub\\a.txt", "C:/data/root", '\\'),
        Ok("sub/a.txt".to_string())
    );
    assert_eq!(
        relative_key("C:\\data\\other\\a.txt", "C:\\data\\root", '\\'),
        Err(PathError::OutsideRoot)
    );
}

#[test]
fn a_backslash_is_part_of_a_name_where_it_is_no_separator() {
    assert_eq!(relative_key("/root/a\\b.txt", "/root", '/'), Ok("a\\b.txt".to_string()));
}

#[test]
fn names_keep_their_chars() {
    assert_eq!(
        relative_key("/root/größe/日本語.txt", "/root", '/'),
        Ok("größe/日本語.txt".to_string())
    );
    assert_eq!(relative_key("/root/...", "/root", '/'), Ok("...".to_string()));
    assert_eq!(relative_key("/root/.hidden", "/root", '/'), Ok(".hidden".to_string()));
    assert_eq!(relative_key("/root/a b/c..d", "/root", '/'), Ok("a b/c..d".to_string()));
}

#[test]
fn split_keeps_empty_pieces() {
    assert_eq!(texts(split("", '/')), vec![""]);
    assert_eq!(texts(split("a", '/')), vec!["a"]);
    assert_eq!(texts(split("/a//b/", '/')), vec!["", "a", "", "b", ""]);
    assert_eq!(texts(split("a\\b/c", '\\')), vec!["a", "b", "c"]);
    assert_eq!(texts(split("a\\b/c", '/')), vec!["a\\b", "c"]);
}

#[test]
fn components_are_resolved() {
    assert_eq!(texts(components("/a/./b/../c", '/')), vec!["a", "c"]);
    assert_eq!(texts(components("../..", '/')), Vec::<String>::new());
    assert_eq!(texts(components("a/b/../../..", '/')), Vec::<String>::new());
    assert_eq!(texts(components("a/b/../../../c", '/')), vec!["c"]);
    assert_eq!(texts(components("", '/')), Vec::<String>::new());
}
