use frame_extract::naming::{file_name_in, output_path, OutputTarget};

#[test]
fn name_in_a_folder() {
    assert_eq!(file_name_in("out", 0, 100), "out/0-100.y4m");
    assert_eq!(file_name_in("/tmp/clips", 50, 100), "/tmp/clips/50-100.y4m");
    assert_eq!(file_name_in("", 1, 2), "/1-2.y4m");
}

#[test]
fn path_in_the_given_folder() {
    let target = OutputTarget::Folder(Some(String::from("segments")));
    assert_eq!(output_path(&target, 12, 34), "segments/12-34.y4m");
}

#[test]
fn path_in_the_current_folder_by_default() {
    let target = OutputTarget::Folder(None);
    assert_eq!(output_path(&target, 0, 1), "./0-1.y4m");
}

#[test]
fn path_of_a_single_file_is_kept() {
    let target = OutputTarget::File(String::from("clip.y4m"));
    assert_eq!(output_path(&target, 0, 100), "clip.y4m");
    assert_eq!(output_path(&target, 5, 6), "clip.y4m");
}
