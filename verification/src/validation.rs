//! The checks made on the settings before any video is made: the folders and the
//! file of commands exist, the chosen command exists, and there are enough dummy
//! videos. What the disk shows is observed by the caller and handed in.

use vstd::prelude::*;
use crate::args::Arguments;
use crate::error::VideoError;
use crate::text::{decimal, decimal_string};

verus! {

/// The file that holds the command lines, one per line.
pub const COMMANDS_FILE: &'static str = "ffmpeg_commands.txt";

/// An entry of a folder: its path as displayed, and its extension where it has one
/// that is valid UTF-8.
#[derive(Debug)]
pub struct FolderEntry {
    pub path: String,
    pub extension: Option<String>,
}

/// What the disk shows of a folder: whether the path exists, and the entries read
/// from it or the text of the error met while reading it.
#[derive(Debug)]
pub struct FolderScan {
    pub exists: bool,
    pub listing: Result<Vec<FolderEntry>, String>,
}

/// The extensions of the files taken for videos.
pub open spec fn is_video_extension_text(e: Seq<char>) -> bool {
    e == "avi"@ || e == "mov"@ || e == "mp4"@ || e == "mpg"@ || e == "mpeg"@ || e == "wmv"@
}

/// Whether a folder entry is taken for a video.
pub open spec fn is_video_entry(e: FolderEntry) -> bool {
    e.extension matches Some(x) && is_video_extension_text(x@)
}

/// The paths of the video files among `entries`, in order.
pub open spec fn video_paths(entries: Seq<FolderEntry>) -> Seq<Seq<char>> {
    entries.filter(|e: FolderEntry| is_video_entry(e)).map_values(|e: FolderEntry| e.path@)
}

/// Whether two texts are equal.
fn same_text(a: &str, b: &str) -> (r: bool)
    ensures
        r == (a@ == b@),
{
    String::from_str(a) == String::from_str(b)
}

/// Whether `ext` is the extension of a video file: avi, mov, mp4, mpg, mpeg or wmv.
pub fn is_video_extension(ext: &str) -> (r: bool)
    ensures
        r == is_video_extension_text(ext@),
{
    same_text(ext, "avi") || same_text(ext, "mov") || same_text(ext, "mp4") || same_text(ext, "mpg")
        || same_text(ext, "mpeg") || same_text(ext, "wmv")
}

/// The paths of the video files among the entries of a folder, in order.
pub fn video_files_in_folder(entries: &Vec<FolderEntry>) -> (res: Vec<String>)
    ensures
        res.deep_view() == video_paths(entries@),
{
    let ghost es = entries@;
    let ghost keep = |e: FolderEntry| is_video_entry(e);
    let ghost path_of = |e: FolderEntry| e.path@;
    let mut res: Vec<String> = Vec::new();
    let n = entries.len();
    proof {
        reveal(Seq::filter);
    }
    assert(res.deep_view() =~= es.take(0).filter(keep).map_values(path_of));
    for i in 0..n
        invariant
            n == entries.len(),
            es == entries@,
            keep == (|e: FolderEntry| is_video_entry(e)),
            path_of == (|e: FolderEntry| e.path@),
            res.deep_view() == es.take(i as int).filter(keep).map_values(path_of),
    {
        proof {
            reveal(Seq::filter);
        }
        let ghost before = es.take(i as int).filter(keep);
        assert(es.take(i + 1).drop_last() =~= es.take(i as int));
        assert(es.take(i + 1).last() == entries@[i as int]);
        let video = match &entries[i].extension {
            Some(x) => is_video_extension(x.as_str()),
            None => false,
        };
        if video {
            let ghost old_res = res.deep_view();
            res.push(entries[i].path.clone());
            assert(before.push(entries@[i as int]).map_values(path_of) =~= before.map_values(
                path_of,
            ).push(entries@[i as int].path@));
            assert(res.deep_view() =~= old_res.push(entries@[i as int].path@));
        }
    }
    assert(es.take(n as int) =~= es);
    res
}

/// The reason given when a folder is missing.
pub open spec fn missing_folder_text(folder: Seq<char>) -> Seq<char> {
    "Directory "@ + folder + " does not exist"@
}

/// Checks that `folder` exists, given whether the disk shows it (`exists`).
pub fn folder_exists(folder: &str, exists: bool) -> (res: Result<(), VideoError>)
    ensures
        res is Ok <==> exists,
        res matches Err(e) ==> e.reason@ == missing_folder_text(folder@),
{
    if exists {
        Ok(())
    } else {
        let mut reason = String::from_str("Directory ");
        reason.append(folder);
        reason.append(" does not exist");
        Err(VideoError { reason })
    }
}

/// The reason given when the file of commands is missing.
pub open spec fn missing_commands_file_text(fname: Seq<char>) -> Seq<char> {
    "The file of commands, "@ + fname
        + ",  can't be found.\n The file should be in the same folder as this application."@
}

/// Checks that the file of commands `fname` exists, given whether the disk shows it
/// (`exists`).
pub fn file_exist(fname: &str, exists: bool) -> (res: Result<(), VideoError>)
    ensures
        res is Ok <==> exists,
        res matches Err(e) ==> e.reason@ == missing_commands_file_text(fname@),
{
    if exists {
        Ok(())
    } else {
        let mut reason = String::from_str("The file of commands, ");
        reason.append(fname);
        reason.append(",  can't be found.\n The file should be in the same folder as this application.");
        Err(VideoError { reason })
    }
}

/// The number of video files in a folder, or the reason it cannot be counted: the
/// folder is missing, or reading it failed.
pub open spec fn video_file_count(folder: Seq<char>, scan: FolderScan) -> Result<nat, Seq<char>> {
    if !scan.exists {
        Err(missing_folder_text(folder))
    } else {
        match scan.listing {
            Err(e) => Err(e@),
            Ok(entries) => Ok(video_paths(entries@).len()),
        }
    }
}

/// Counts the video files in `folder`, given what the disk shows of it.
pub fn count_contained_video_files(folder: &str, scan: &FolderScan) -> (res: Result<usize, VideoError>)
    ensures
        match (res, video_file_count(folder@, *scan)) {
            (Ok(n), Ok(m)) => n == m,
            (Err(e), Err(r)) => e.reason@ == r,
            _ => false,
        },
{
    folder_exists(folder, scan.exists)?;
    match &scan.listing {
        Err(e) => Err(VideoError { reason: e.clone() }),
        Ok(entries) => {
            let vf = video_files_in_folder(entries);
            Ok(vf.len())
        },
    }
}

/// The reason given when there are fewer dummy videos than stacked videos asked for.
pub open spec fn not_enough_dummies_text(file_count: nat, quantity: nat) -> Seq<char> {
    "Not enough dummy files. There are "@ + decimal(file_count)
        + " dummy files.\nAnd "@ + decimal(quantity) + " stacked files have been asked for."@
}

/// The outcome of checking that the dummies folder holds at least `quantity` videos.
pub open spec fn dummy_check(quantity: nat, folder: Seq<char>, scan: FolderScan) -> Result<(), Seq<char>> {
    match video_file_count(folder, scan) {
        Err(e) => Err(e),
        Ok(count) => if quantity > count {
            Err(not_enough_dummies_text(count, quantity))
        } else {
            Ok(())
        },
    }
}

/// A check's outcome as plain values.
pub open spec fn check_result(r: Result<(), VideoError>) -> Result<(), Seq<char>> {
    match r {
        Ok(()) => Ok(()),
        Err(e) => Err(e.reason@),
    }
}

/// Checks that the dummies folder holds at least `quantity` video files, given what
/// the disk shows of it.
pub fn enough_dummy_files(quantity: usize, dummies_folder: &str, scan: &FolderScan) -> (res: Result<
    (),
    VideoError,
>)
    ensures
        check_result(res) == dummy_check(quantity as nat, dummies_folder@, *scan),
{
    let file_count = count_contained_video_files(dummies_folder, scan)?;
    if quantity > file_count {
        let mut reason = String::from_str("Not enough dummy files. There are ");
        let c = decimal_string(file_count as u128);
        reason.append(c.as_str());
        reason.append(" dummy files.\nAnd ");
        let q = decimal_string(quantity as u128);
        reason.append(q.as_str());
        reason.append(" stacked files have been asked for.");
        Err(VideoError { reason })
    } else {
        Ok(())
    }
}

/// The number of lines of a text as the text is split at each `\n`: one more than
/// the number of `\n` characters (an empty text, and a text ending in `\n`, count
/// the empty piece after the last break).
pub open spec fn line_count(text: Seq<char>) -> nat {
    text.filter(|c: char| c == '\n').len() + 1
}

/// The number of `\n` characters in `text`.
fn newline_count(text: &str) -> (n: usize)
    ensures
        n == text@.filter(|c: char| c == '\n').len(),
{
    let ghost is_break = |c: char| c == '\n';
    let len = text.unicode_len();
    let mut count: usize = 0;
    proof {
        reveal(Seq::filter);
    }
    for c in it: text.chars()
        invariant
            len == text@.len(),
            is_break == (|c: char| c == '\n'),
            it.seq() == text@,
            count == text@.take(it.index() as int).filter(is_break).len(),
            count <= it.index(),
    {
        proof {
            reveal(Seq::filter);
        }
        assert(text@.take(it.index() + 1).drop_last() =~= text@.take(it.index() as int));
        if c == '\n' {
            count += 1;
        }
    }
    assert(text@.take(len as int) =~= text@);
    count
}

/// The reason given when the chosen command does not exist.
pub open spec fn index_too_large_text(ix: nat, lines: nat) -> Seq<char> {
    "Command index "@ + decimal(ix) + " is too large. Should be < "@ + decimal(lines)
}

/// The outcome of checking the command index against the file of commands, read as
/// `contents` (its text, or the text of the error met while reading it).
pub open spec fn command_index_check(ix: nat, contents: Result<String, String>) -> Result<(), Seq<char>> {
    match contents {
        Err(e) => Err(e@),
        Ok(text) => if ix >= line_count(text@) {
            Err(index_too_large_text(ix, line_count(text@)))
        } else {
            Ok(())
        },
    }
}

/// Checks that the file of commands has a line numbered `ix` (from zero), given
/// what reading the file gave.
pub fn command_index_ok(ix: usize, contents: &Result<String, String>) -> (res: Result<(), VideoError>)
    ensures
        check_result(res) == command_index_check(ix as nat, *contents),
{
    match contents {
        Err(e) => Err(VideoError { reason: e.clone() }),
        Ok(text) => {
            let breaks = newline_count(text.as_str());
            let line_count: u128 = breaks as u128 + 1;
            if ix as u128 >= line_count {
                let mut reason = String::from_str("Command index ");
                let i = decimal_string(ix as u128);
                reason.append(i.as_str());
                reason.append(" is too large. Should be < ");
                let l = decimal_string(line_count);
                reason.append(l.as_str());
                Err(VideoError { reason })
            } else {
                Ok(())
            }
        },
    }
}

/// The outcome of checking the settings, given what the disk shows: the first of
/// these that fails gives the error: the client folder exists, the dummies folder
/// exists, the file of commands exists, it has the chosen command, and the dummies
/// folder holds enough videos.
pub open spec fn settings_check(
    args: Arguments,
    client_folder_exists: bool,
    dummies: FolderScan,
    commands_file_exists: bool,
    commands_file: Result<String, String>,
) -> Result<(), Seq<char>> {
    if !client_folder_exists {
        Err(missing_folder_text(args.client_folder@))
    } else if !dummies.exists {
        Err(missing_folder_text(args.dummies_folder@))
    } else if !commands_file_exists {
        Err(missing_commands_file_text(COMMANDS_FILE@))
    } else if command_index_check(args.index_of_command as nat, commands_file) is Err {
        command_index_check(args.index_of_command as nat, commands_file)
    } else {
        dummy_check(args.quantity as nat, args.dummies_folder@, dummies)
    }
}

/// Checks the settings before any video is made, given what the disk shows: whether
/// the client folder exists, the dummies folder, whether the file of commands
/// exists, and what reading it gave.
pub fn check_args(
    args: &Arguments,
    client_folder_exists: bool,
    dummies: &FolderScan,
    commands_file_exists: bool,
    commands_file: &Result<String, String>,
) -> (res: Result<(), VideoError>)
    ensures
        check_result(res) == settings_check(
            *args,
            client_folder_exists,
            *dummies,
            commands_file_exists,
            *commands_file,
        ),
{
    folder_exists(args.client_folder.as_str(), client_folder_exists)?;
    folder_exists(args.dummies_folder.as_str(), dummies.exists)?;
    file_exist(COMMANDS_FILE, commands_file_exists)?;
    command_index_ok(args.index_of_command, commands_file)?;
    enough_dummy_files(args.quantity, args.dummies_folder.as_str(), dummies)?;
    Ok(())
}

} // verus!
