use video_stacker::args::Arguments;
use video_stacker::command_builder::{
    add_arguments_to_command, command_lines_from_records, create_video_commands,
    create_video_commands_checked, get_cmd_args,
    update_args_with_substitutions, CommandLine,
};

fn words(ws: &[&str]) -> Vec<String> {
    ws.iter().map(|w| w.to_string()).collect()
}

#[test]
fn update_arguments() {
    ////TOP_VID, BOTTOM_VID, OUT_VID

    let args_vec = vec![
        "-flags".to_string(),
        "2".to_string(),
        "-i".to_string(),
        "TOP_VID".to_string(),
        "x".to_string(),
        "BOTTOM_VID".to_string(),
        "OUT_VID".to_string(),
    ];

    let res = update_args_with_substitutions(&args_vec, "top.mp4", "bottom.mp4", "output.mp4")
        .unwrap();
    assert!(res.contains(&"top.mp4".to_string()));
    assert!(res.contains(&"bottom.mp4".to_string()));
    assert!(res.contains(&"output.mp4".to_string()));

    println!("{:?}", res);
}

#[test]
fn substitution_replaces_in_place_and_keeps_other_words() {
    let input = words(&["ffmpeg", "-i", "TOP_VID", "-i", "BOTTOM_VID", "-y", "OUT_VID"]);
    let res = update_args_with_substitutions(&input, "a.mp4", "b.mp4", "c.mp4").unwrap();
    assert_eq!(res, words(&["ffmpeg", "-i", "a.mp4", "-i", "b.mp4", "-y", "c.mp4"]));
}

#[test]
fn substitution_replaces_only_the_first_occurrence() {
    let input = words(&["TOP_VID", "TOP_VID", "BOTTOM_VID", "OUT_VID", "OUT_VID"]);
    let res = update_args_with_substitutions(&input, "t", "b", "o").unwrap();
    assert_eq!(res, words(&["t", "TOP_VID", "b", "o", "OUT_VID"]));
}

#[test]
fn substitution_missing_top() {
    let input = words(&["ffmpeg", "BOTTOM_VID", "OUT_VID"]);
    let err = update_args_with_substitutions(&input, "t", "b", "o").unwrap_err();
    assert_eq!(err.reason, "Missing 'TOP_VID' placeholder in command");
}

#[test]
fn substitution_missing_bottom() {
    let input = words(&["ffmpeg", "TOP_VID", "OUT_VID"]);
    let err = update_args_with_substitutions(&input, "t", "b", "o").unwrap_err();
    assert_eq!(err.reason, "Missing 'BOTTOM_VID' placeholder in command");
}

#[test]
fn substitution_missing_out() {
    let input = words(&["ffmpeg", "TOP_VID", "BOTTOM_VID"]);
    let err = update_args_with_substitutions(&input, "t", "b", "o").unwrap_err();
    assert_eq!(err.reason, "Missing 'OUT_VID' placeholder in command");
}

#[test]
fn substitution_value_that_is_a_later_placeholder() {
    // The top video is named like the bottom placeholder: it is filled in turn.
    let input = words(&["TOP_VID", "OUT_VID"]);
    let res = update_args_with_substitutions(&input, "BOTTOM_VID", "b", "o").unwrap();
    assert_eq!(res, words(&["b", "o"]));
}

#[test]
fn add_arguments_appends_in_order() {
    let mut cmd = CommandLine::new("ffmpeg".to_string());
    cmd = add_arguments_to_command(cmd, &words(&["-y"]));
    let cmd = add_arguments_to_command(cmd, &words(&["-i", "a.mp4"]));
    assert_eq!(cmd.program, "ffmpeg");
    assert_eq!(cmd.args, words(&["-y", "-i", "a.mp4"]));
}

#[test]
fn get_cmd_args_all_good() {
    let contents = b"ffmpeg -i TOP_VID -i BOTTOM_VID -filter_complex vstack OUT_VID\n\
ffmpeg -y -i TOP_VID -i BOTTOM_VID -filter_complex vstack=inputs=2 OUT_VID\n\
ffmpeg -i TOP_VID -i BOTTOM_VID -filter_complex [0:v][1:v]vstack OUT_VID\n";
    let all_args = get_cmd_args(contents);
    assert!(all_args.is_ok());
    let args = all_args.unwrap();
    assert_eq!(3, args.len());
    assert_eq!("ffmpeg", args[0][0]);
    assert_eq!("ffmpeg", args[1][0]);
    assert_eq!("ffmpeg", args[2][0]);
}

#[test]
fn get_cmd_args_empty_file() {
    let all_args = get_cmd_args(b"");
    assert!(all_args.is_err());
    assert_eq!(all_args.unwrap_err().reason, "Commands file is empty");
}

#[test]
fn get_cmd_args_no_file() {
    // Reading "./testfiles/nosuchfile.txt" fails before any record is read; the
    // reader's error is passed on.
    let all_args = command_lines_from_records(Err("No such file or directory (os error 2)".to_string()));
    assert!(all_args.is_err());
    assert_eq!(all_args.unwrap_err().reason, "No such file or directory (os error 2)");
}

#[test]
fn get_cmd_args_drops_empty_words() {
    let args = get_cmd_args(b"ffmpeg  -i   TOP_VID OUT_VID \n").unwrap();
    assert_eq!(args, vec![words(&["ffmpeg", "-i", "TOP_VID", "OUT_VID"])]);
}

#[test]
fn get_cmd_args_keeps_quoted_words_whole() {
    let args = get_cmd_args(b"ffmpeg -vf \"scale=1 2\" OUT_VID\n").unwrap();
    assert_eq!(args, vec![words(&["ffmpeg", "-vf", "scale=1 2", "OUT_VID"])]);
}

#[test]
fn get_cmd_args_rejects_invalid_utf8() {
    let err = get_cmd_args(b"ffmpeg \xff\xfe\n").unwrap_err();
    assert!(err.reason.starts_with("CSV parse error"));
}

#[test]
fn command_lines_from_records_results() {
    let err = command_lines_from_records(Err("broken".to_string())).unwrap_err();
    assert_eq!(err.reason, "broken");
    let err = command_lines_from_records(Ok(vec![])).unwrap_err();
    assert_eq!(err.reason, "Commands file is empty");
    let lines = command_lines_from_records(Ok(vec![words(&["a", "", "b", ""]), words(&["", ""])]))
        .unwrap();
    assert_eq!(lines, vec![words(&["a", "b"]), words(&[])]);
}

fn settings(quantity: usize) -> Arguments {
    Arguments {
        client_folder: "client".to_string(),
        dummies_folder: "dummies".to_string(),
        output_folder: "out".to_string(),
        quantity,
        index_of_command: 0,
    }
}

#[test]
fn create_video_commands_pairs_every_client_with_each_dummy() {
    let cmd = words(&["ffmpeg", "-i", "TOP_VID", "-i", "BOTTOM_VID", "OUT_VID"]);
    let clients = words(&["c1.mp4", "c2.mp4"]);
    let dummies = words(&["d1.mp4", "d2.mp4", "d3.mp4"]);
    let jobs = create_video_commands(&settings(2), &cmd, &clients, &dummies).unwrap();
    assert_eq!(jobs.len(), 4);
    let expected = [
        ("c1.mp4", "d1.mp4", "out/stacked_video0.mp4"),
        ("c1.mp4", "d2.mp4", "out/stacked_video1.mp4"),
        ("c2.mp4", "d1.mp4", "out/stacked_video2.mp4"),
        ("c2.mp4", "d2.mp4", "out/stacked_video3.mp4"),
    ];
    for (k, job) in jobs.iter().enumerate() {
        let (c, d, o) = expected[k];
        assert_eq!(job.ix, k as i32);
        assert_eq!(job.client_video, c);
        assert_eq!(job.dummy_video, d);
        assert_eq!(job.output_video, o);
        assert_eq!(job.cmd.program, "ffmpeg");
        assert_eq!(job.cmd.args, words(&["-i", c, "-i", d, o]));
    }
    assert_eq!(
        jobs[3].to_display_string(),
        "Combining c2.mp4 and  d2.mp4 to create out/stacked_video3.mp4"
    );
}

#[test]
fn create_video_commands_output_names_are_distinct() {
    let cmd = words(&["ffmpeg", "TOP_VID", "BOTTOM_VID", "OUT_VID"]);
    let clients = words(&["a", "b", "c", "d"]);
    let dummies = words(&["x", "y", "z"]);
    let jobs = create_video_commands(&settings(3), &cmd, &clients, &dummies).unwrap();
    assert_eq!(jobs.len(), 12);
    for i in 0..jobs.len() {
        for j in 0..jobs.len() {
            if i != j {
                assert_ne!(jobs[i].output_video, jobs[j].output_video);
            }
        }
    }
    assert_eq!(jobs[11].output_video, "out/stacked_video11.mp4");
}

#[test]
fn create_video_commands_reports_missing_placeholder() {
    let cmd = words(&["ffmpeg", "TOP_VID", "OUT_VID"]);
    let err = create_video_commands(&settings(1), &cmd, &words(&["a"]), &words(&["x"])).unwrap_err();
    assert_eq!(err.reason, "Missing 'BOTTOM_VID' placeholder in command");
}

#[test]
fn create_video_commands_with_nothing_to_make() {
    let cmd = words(&["ffmpeg"]);
    let jobs = create_video_commands(&settings(0), &cmd, &words(&["a"]), &words(&[])).unwrap();
    assert!(jobs.is_empty());
    let jobs = create_video_commands(&settings(2), &cmd, &words(&[]), &words(&[])).unwrap();
    assert!(jobs.is_empty());
}

#[test]
fn too_few_dummies_with_a_broken_command_gives_the_error() {
    let cmd = words(&["ffmpeg", "TOP_VID", "BOTTOM_VID"]);
    let err = create_video_commands(&settings(3), &cmd, &words(&["a"]), &words(&["x"])).unwrap_err();
    assert_eq!(err.reason, "Missing 'OUT_VID' placeholder in command");
    let checked = create_video_commands_checked(&settings(3), &cmd, &words(&["a"]), &words(&["x"]));
    assert_eq!(checked.unwrap().unwrap_err().reason, "Missing 'OUT_VID' placeholder in command");
}

#[test]
fn too_few_dummies_with_a_good_command_cannot_be_made() {
    let cmd = words(&["ffmpeg", "TOP_VID", "BOTTOM_VID", "OUT_VID"]);
    assert!(create_video_commands_checked(&settings(3), &cmd, &words(&["a"]), &words(&["x", "y"])).is_none());
}

#[test]
fn checked_jobs_match_the_unchecked_ones() {
    let cmd = words(&["ffmpeg", "TOP_VID", "BOTTOM_VID", "OUT_VID"]);
    let jobs = create_video_commands_checked(&settings(2), &cmd, &words(&["a", "b"]), &words(&["x", "y"]))
        .unwrap()
        .unwrap();
    assert_eq!(jobs.len(), 4);
    assert_eq!(jobs[2].client_video, "b");
    assert_eq!(jobs[2].dummy_video, "x");
    assert_eq!(jobs[2].output_video, "out/stacked_video2.mp4");
}
