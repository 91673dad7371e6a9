use video_stacker::args::Arguments;
use video_stacker::validation::{
    check_args, command_index_ok, count_contained_video_files, enough_dummy_files, file_exist,
    folder_exists, is_video_extension, video_files_in_folder, FolderEntry, FolderScan,
    COMMANDS_FILE,
};

fn entry(path: &str, ext: Option<&str>) -> FolderEntry {
    FolderEntry { path: path.to_string(), extension: ext.map(|e| e.to_string()) }
}

fn three_videos() -> FolderScan {
    FolderScan {
        exists: true,
        listing: Ok(vec![
            entry("./testfiles/dummyvids/a.mp4", Some("mp4")),
            entry("./testfiles/dummyvids/notes.txt", Some("txt")),
            entry("./testfiles/dummyvids/b.avi", Some("avi")),
            entry("./testfiles/dummyvids/README", None),
            entry("./testfiles/dummyvids/c.mov", Some("mov")),
        ]),
    }
}

#[test]
fn folder_exists_test() {
    //happy path
    let res = folder_exists("./testfiles", true);
    assert!(res.is_ok(), "The folder does exist");
    let res = folder_exists("./NOSUCHFOLDRE", false);
    assert!(res.is_err(), "The folder does exist");
}

#[test]
fn folder_missing_reason() {
    let err = folder_exists("./NOSUCHFOLDRE", false).unwrap_err();
    assert_eq!(err.reason, "Directory ./NOSUCHFOLDRE does not exist");
}

#[test]
fn file_exists_test() {
    //happy path
    let res = file_exist("./testfiles/good_cmdfile.txt", true);
    assert!(res.is_ok(), "The file does exist");
    let res = file_exist("./testfiles/NOSUCHFILE.txt", false);
    assert!(res.is_err(), "The folder does exist");
}

#[test]
fn file_missing_reason() {
    let err = file_exist("cmds.txt", false).unwrap_err();
    assert_eq!(
        err.reason,
        "The file of commands, cmds.txt,  can't be found.\n The file should be in the same folder as this application."
    );
}

#[test]
fn command_index() {
    let contents: Result<String, String> = Ok("ffmpeg -i TOP_VID -i BOTTOM_VID OUT_VID\n\
ffmpeg -y -i TOP_VID -i BOTTOM_VID OUT_VID\n\
ffmpeg -i TOP_VID -i BOTTOM_VID -an OUT_VID\n"
        .to_string());
    let res = command_index_ok(0, &contents);
    assert!(res.is_ok());

    let res = command_index_ok(4, &contents);
    assert!(res.is_err());
}

#[test]
fn command_index_counts_the_piece_after_the_last_break() {
    let contents: Result<String, String> = Ok("a\nb\n".to_string());
    assert!(command_index_ok(2, &contents).is_ok());
    let err = command_index_ok(3, &contents).unwrap_err();
    assert_eq!(err.reason, "Command index 3 is too large. Should be < 3");
    let empty: Result<String, String> = Ok(String::new());
    assert!(command_index_ok(0, &empty).is_ok());
    assert_eq!(
        command_index_ok(1, &empty).unwrap_err().reason,
        "Command index 1 is too large. Should be < 1"
    );
}

#[test]
fn command_index_passes_on_read_error() {
    let failed: Result<String, String> = Err("No such file or directory (os error 2)".to_string());
    assert_eq!(
        command_index_ok(0, &failed).unwrap_err().reason,
        "No such file or directory (os error 2)"
    );
}

#[test]
fn dummy_files() {
    let scan = three_videos();
    let res = enough_dummy_files(3, "./testfiles/dummyvids", &scan);
    assert!(res.is_ok());
    let res = enough_dummy_files(4, "./testfiles/dummyvids", &scan);
    assert!(res.is_err());
}

#[test]
fn not_enough_dummies_reason() {
    let err = enough_dummy_files(4, "./testfiles/dummyvids", &three_videos()).unwrap_err();
    assert_eq!(
        err.reason,
        "Not enough dummy files. There are 3 dummy files.\nAnd 4 stacked files have been asked for."
    );
}

#[test]
fn video_extensions() {
    for e in ["avi", "mov", "mp4", "mpg", "mpeg", "wmv"] {
        assert!(is_video_extension(e));
    }
    for e in ["MP4", "mkv", "", "txt", "mp"] {
        assert!(!is_video_extension(e));
    }
}

#[test]
fn video_files_are_filtered_by_extension() {
    let scan = three_videos();
    let entries = match &scan.listing {
        Ok(es) => es,
        Err(_) => unreachable!(),
    };
    assert_eq!(
        video_files_in_folder(entries),
        vec![
            "./testfiles/dummyvids/a.mp4".to_string(),
            "./testfiles/dummyvids/b.avi".to_string(),
            "./testfiles/dummyvids/c.mov".to_string(),
        ]
    );
}

#[test]
fn counting_video_files() {
    assert_eq!(count_contained_video_files("d", &three_videos()).unwrap(), 3);
    let missing = FolderScan { exists: false, listing: Ok(vec![]) };
    assert_eq!(
        count_contained_video_files("d", &missing).unwrap_err().reason,
        "Directory d does not exist"
    );
    let unreadable = FolderScan { exists: true, listing: Err("Permission denied (os error 13)".to_string()) };
    assert_eq!(
        count_contained_video_files("d", &unreadable).unwrap_err().reason,
        "Permission denied (os error 13)"
    );
}

fn settings(quantity: usize, index_of_command: usize) -> Arguments {
    Arguments {
        client_folder: "client".to_string(),
        dummies_folder: "dummies".to_string(),
        output_folder: "output".to_string(),
        quantity,
        index_of_command,
    }
}

#[test]
fn check_args_reports_the_first_failure() {
    let text: Result<String, String> = Ok("ffmpeg TOP_VID BOTTOM_VID OUT_VID".to_string());
    assert!(check_args(&settings(3, 0), true, &three_videos(), true, &text).is_ok());
    assert_eq!(
        check_args(&settings(3, 0), false, &three_videos(), false, &text).unwrap_err().reason,
        "Directory client does not exist"
    );
    let no_dummies = FolderScan { exists: false, listing: Err("gone".to_string()) };
    assert_eq!(
        check_args(&settings(3, 0), true, &no_dummies, false, &text).unwrap_err().reason,
        "Directory dummies does not exist"
    );
    let err = check_args(&settings(3, 0), true, &three_videos(), false, &text).unwrap_err();
    assert!(err.reason.starts_with("The file of commands, ffmpeg_commands.txt,"));
    assert_eq!(COMMANDS_FILE, "ffmpeg_commands.txt");
    assert_eq!(
        check_args(&settings(9, 1), true, &three_videos(), true, &text).unwrap_err().reason,
        "Command index 1 is too large. Should be < 1"
    );
    assert_eq!(
        check_args(&settings(9, 0), true, &three_videos(), true, &text).unwrap_err().reason,
        "Not enough dummy files. There are 3 dummy files.\nAnd 9 stacked files have been asked for."
    );
}
