//! Building the commands: the placeholders of a command line are filled with
//! the two input videos and the output video, one command per pair of a client
//! video and a dummy video.

use vstd::prelude::*;
use vstd::arithmetic::div_mod::lemma_fundamental_div_mod_converse;
use crate::args::Arguments;
use crate::error::VideoError;
use crate::text::{decimal, decimal_string, split_on};

verus! {

/// The placeholder for the video on top.
pub open spec fn top_placeholder() -> Seq<char> {
    "TOP_VID"@
}

/// The placeholder for the video at the bottom.
pub open spec fn bottom_placeholder() -> Seq<char> {
    "BOTTOM_VID"@
}

/// The placeholder for the video that is made.
pub open spec fn out_placeholder() -> Seq<char> {
    "OUT_VID"@
}

/// Whether a word is one of the three placeholders.
pub open spec fn is_placeholder(w: Seq<char>) -> bool {
    w == top_placeholder() || w == bottom_placeholder() || w == out_placeholder()
}

/// `s` with its first `x` replaced by `v`; `None` where `x` does not occur.
pub open spec fn replace_first(s: Seq<Seq<char>>, x: Seq<char>, v: Seq<char>) -> Option<
    Seq<Seq<char>>,
> {
    match s.index_of_first(x) {
        Some(i) => Some(s.update(i, v)),
        None => None,
    }
}

/// The reason given when the top placeholder is missing.
pub open spec fn missing_top_text() -> Seq<char> {
    "Missing 'TOP_VID' placeholder in command"@
}

/// The reason given when the bottom placeholder is missing.
pub open spec fn missing_bottom_text() -> Seq<char> {
    "Missing 'BOTTOM_VID' placeholder in command"@
}

/// The reason given when the output placeholder is missing.
pub open spec fn missing_out_text() -> Seq<char> {
    "Missing 'OUT_VID' placeholder in command"@
}

/// The command line with its placeholders filled, one after the other: the first
/// `TOP_VID` becomes `top`, then the first `BOTTOM_VID` becomes `bottom`, then the
/// first `OUT_VID` becomes `out`. The error is the reason for the first one missing.
pub open spec fn substituted(
    input: Seq<Seq<char>>,
    top: Seq<char>,
    bottom: Seq<char>,
    out: Seq<char>,
) -> Result<Seq<Seq<char>>, Seq<char>> {
    match replace_first(input, top_placeholder(), top) {
        None => Err(missing_top_text()),
        Some(s1) => match replace_first(s1, bottom_placeholder(), bottom) {
            None => Err(missing_bottom_text()),
            Some(s2) => match replace_first(s2, out_placeholder(), out) {
                None => Err(missing_out_text()),
                Some(s3) => Ok(s3),
            },
        },
    }
}

/// A list of strings, or the reason of an error, as plain values.
pub open spec fn words_result(r: Result<Vec<String>, VideoError>) -> Result<
    Seq<Seq<char>>,
    Seq<char>,
> {
    match r {
        Ok(v) => Ok(v.deep_view()),
        Err(e) => Err(e.reason@),
    }
}

/// Replaces the first element of `args` equal to `placeholder` by `value`.
fn replace_first_in(args: &mut Vec<String>, placeholder: &str, value: &str) -> (found: bool)
    ensures
        match replace_first(old(args).deep_view(), placeholder@, value@) {
            Some(s) => found && final(args).deep_view() == s,
            None => !found && final(args).deep_view() == old(args).deep_view(),
        },
{
    let target = String::from_str(placeholder);
    let n = args.len();
    let mut i: usize = 0;
    while i < n
        invariant
            n == args.len(),
            i <= n,
            *args == *old(args),
            target@ == placeholder@,
            forall|j: int| 0 <= j < i ==> args.deep_view()[j] != placeholder@,
        decreases n - i,
    {
        if args[i] == target {
            let ghost before = args.deep_view();
            proof {
                before.index_of_first_ensures(placeholder@);
                assert(before[i as int] == placeholder@);
                let k = before.index_of_first(placeholder@)->0;
                if k < i {
                    assert(before[k] != placeholder@);
                } else if k > i {
                    assert(before[i as int] == placeholder@);
                }
            }
            args.set(i, String::from_str(value));
            assert(args.deep_view() =~= before.update(i as int, value@));
            return true;
        }
        i += 1;
    }
    proof {
        let s = args.deep_view();
        s.index_of_first_ensures(placeholder@);
        if s.contains(placeholder@) {
            let k = s.index_of_first(placeholder@)->0;
            assert(s[k] == placeholder@);
        }
    }
    false
}

/// Fills the placeholders of a command line with the top video `tv`, the bottom
/// video `bv` and the output video `ov`; fails with the reason for the first
/// placeholder that is missing.
pub fn update_args_with_substitutions(input_vec: &Vec<String>, tv: &str, bv: &str, ov: &str) -> (res:
    Result<Vec<String>, VideoError>)
    ensures
        words_result(res) == substituted(input_vec.deep_view(), tv@, bv@, ov@),
{
    let mut args_clone = input_vec.clone();
    assert(args_clone.deep_view() =~= input_vec.deep_view());
    if !replace_first_in(&mut args_clone, "TOP_VID", tv) {
        return Err(VideoError::from_reason("Missing 'TOP_VID' placeholder in command"));
    }
    if !replace_first_in(&mut args_clone, "BOTTOM_VID", bv) {
        return Err(VideoError::from_reason("Missing 'BOTTOM_VID' placeholder in command"));
    }
    if !replace_first_in(&mut args_clone, "OUT_VID", ov) {
        return Err(VideoError::from_reason("Missing 'OUT_VID' placeholder in command"));
    }
    Ok(args_clone)
}

/// A filled command line is as long as the one it was filled from, which is not empty.
pub proof fn lemma_substituted_len(input: Seq<Seq<char>>, top: Seq<char>, bottom: Seq<char>, out: Seq<char>)
    ensures
        substituted(input, top, bottom, out) matches Ok(s) ==> s.len() == input.len() && s.len() >= 1,
{
    input.index_of_first_ensures(top_placeholder());
    if let Some(s1) = replace_first(input, top_placeholder(), top) {
        s1.index_of_first_ensures(bottom_placeholder());
        if let Some(s2) = replace_first(s1, bottom_placeholder(), bottom) {
            s2.index_of_first_ensures(out_placeholder());
        }
    }
}

/// A program and the arguments it is run with.
#[derive(Debug)]
pub struct CommandLine {
    pub program: String,
    pub args: Vec<String>,
}

impl CommandLine {
    /// A command that runs `program` with no arguments.
    pub fn new(program: String) -> (c: CommandLine)
        ensures
            c.program == program,
            c.args@.len() == 0,
    {
        CommandLine { program, args: Vec::new() }
    }
}

/// Appends the arguments `args`, in order, to those of `cmd`.
pub fn add_arguments_to_command(cmd: CommandLine, args: &Vec<String>) -> (res: CommandLine)
    ensures
        res.program == cmd.program,
        res.args.deep_view() == cmd.args.deep_view() + args.deep_view(),
{
    let mut cmd = cmd;
    let ghost start = cmd.args.deep_view();
    let ghost program = cmd.program;
    let n = args.len();
    for i in 0..n
        invariant
            n == args.len(),
            cmd.program == program,
            cmd.args.deep_view() == start + args.deep_view().take(i as int),
    {
        let a = args[i].clone();
        let ghost before = cmd.args.deep_view();
        cmd.args.push(a);
        assert(cmd.args.deep_view() =~= before.push(args.deep_view()[i as int]));
        assert(args.deep_view().take(i + 1) =~= args.deep_view().take(i as int).push(
            args.deep_view()[i as int],
        ));
    }
    assert(args.deep_view().take(n as int) =~= args.deep_view());
    cmd
}

/// One stacking job: the command that makes the video, and what it is made of.
#[derive(Debug)]
pub struct VideoCommand {
    pub cmd: CommandLine,
    pub client_video: String,
    pub dummy_video: String,
    pub output_video: String,
    pub ix: i32,
}

/// A stacking job as plain values.
pub struct VideoCommandModel {
    pub program: Seq<char>,
    pub args: Seq<Seq<char>>,
    pub client_video: Seq<char>,
    pub dummy_video: Seq<char>,
    pub output_video: Seq<char>,
    pub ix: int,
}

impl View for VideoCommand {
    type V = VideoCommandModel;

    open spec fn view(&self) -> VideoCommandModel {
        VideoCommandModel {
            program: self.cmd.program@,
            args: self.cmd.args.deep_view(),
            client_video: self.client_video@,
            dummy_video: self.dummy_video@,
            output_video: self.output_video@,
            ix: self.ix as int,
        }
    }
}

/// How a job is shown to the user.
pub open spec fn video_command_text(c: VideoCommandModel) -> Seq<char> {
    "Combining "@ + c.client_video + " and  "@ + c.dummy_video + " to create "@ + c.output_video
}

impl VideoCommand {
    /// The job as it is shown to the user.
    pub fn to_display_string(&self) -> (s: String)
        ensures
            s@ == video_command_text(self@),
    {
        let mut s = String::from_str("Combining ");
        s.append(self.client_video.as_str());
        s.append(" and  ");
        s.append(self.dummy_video.as_str());
        s.append(" to create ");
        s.append(self.output_video.as_str());
        s
    }
}

/// What the jobs are made from, as plain values.
pub struct StackingPlan {
    pub cmd_args: Seq<Seq<char>>,
    pub clients: Seq<Seq<char>>,
    pub dummies: Seq<Seq<char>>,
    pub quantity: nat,
    pub output_folder: Seq<char>,
}

/// The plan for the given settings, command line and videos.
pub open spec fn plan_of(
    args: Arguments,
    vid_cmd_args: Seq<Seq<char>>,
    client_vids: Seq<Seq<char>>,
    dummy_vids: Seq<Seq<char>>,
) -> StackingPlan {
    StackingPlan {
        cmd_args: vid_cmd_args,
        clients: client_vids,
        dummies: dummy_vids,
        quantity: args.quantity as nat,
        output_folder: args.output_folder@,
    }
}

/// The name of the `k`-th video made: `<folder>/stacked_video<k>.mp4`.
pub open spec fn output_name(folder: Seq<char>, k: nat) -> Seq<char> {
    folder + "/stacked_video"@ + decimal(k) + ".mp4"@
}

/// The `k`-th job: client video `k / quantity` over dummy video `k % quantity`,
/// written to the `k`-th output name; the first word of the filled command line is
/// the program and the rest are its arguments.
pub open spec fn planned_command(p: StackingPlan, k: nat) -> Result<VideoCommandModel, Seq<char>> {
    let client = p.clients[(k / p.quantity) as int];
    let dummy = p.dummies[(k % p.quantity) as int];
    let out = output_name(p.output_folder, k);
    match substituted(p.cmd_args, client, dummy, out) {
        Ok(words) => Ok(
            VideoCommandModel {
                program: words[0],
                args: words.drop_first(),
                client_video: client,
                dummy_video: dummy,
                output_video: out,
                ix: k as int,
            },
        ),
        Err(e) => Err(e),
    }
}

/// The first `n` jobs, or the reason for the first one that cannot be made.
pub open spec fn planned_commands(p: StackingPlan, n: nat) -> Result<Seq<VideoCommandModel>, Seq<char>>
    decreases n,
{
    if n == 0 {
        Ok(Seq::empty())
    } else {
        match planned_commands(p, (n - 1) as nat) {
            Err(e) => Err(e),
            Ok(s) => match planned_command(p, (n - 1) as nat) {
                Err(e) => Err(e),
                Ok(c) => Ok(s.push(c)),
            },
        }
    }
}

/// Once a job cannot be made, the plan fails with that reason however far it goes.
pub proof fn lemma_planned_failure_persists(p: StackingPlan, k: nat, m: nat)
    requires
        k <= m,
        planned_commands(p, k) is Err,
    ensures
        planned_commands(p, m) == planned_commands(p, k),
    decreases m - k,
{
    if k < m {
        lemma_planned_failure_persists(p, k, (m - 1) as nat);
    }
}

/// Jobs, or the reason of an error, as plain values.
pub open spec fn commands_result(r: Result<Vec<VideoCommand>, VideoError>) -> Result<
    Seq<VideoCommandModel>,
    Seq<char>,
> {
    match r {
        Ok(v) => Ok(v@.map_values(|c: VideoCommand| c@)),
        Err(e) => Err(e.reason@),
    }
}

/// The number of the first job that no `i32` can number.
pub open spec fn first_unnumbered_job() -> nat {
    (i32::MAX as int + 1) as nat
}

/// Whether the jobs of a plan can be made without running out of dummy videos or
/// of job numbers: where client videos ask for more dummy videos than there are,
/// a job before the first missing dummy fails; where there are more jobs than an
/// `i32` numbers, a job before the first unnumbered one fails.
pub open spec fn plan_is_safe(p: StackingPlan) -> bool {
    &&& (p.clients.len() > 0 && p.quantity > p.dummies.len()) ==> planned_commands(
        p,
        p.dummies.len(),
    ) is Err
    &&& p.clients.len() * p.quantity > i32::MAX ==> planned_commands(p, first_unnumbered_job()) is Err
}

/// The path of the `k`-th video made in `folder`.
fn output_video_name(folder: &String, k: u128) -> (name: String)
    ensures
        name@ == output_name(folder@, k as nat),
{
    let mut name = folder.clone();
    name.append("/stacked_video");
    let number = decimal_string(k);
    name.append(number.as_str());
    name.append(".mp4");
    name
}

/// Whether one of the first `k` jobs of the plan cannot be made.
fn plan_prefix_fails(
    args: &Arguments,
    vid_cmd_args: &Vec<String>,
    client_vids: &Vec<String>,
    dummy_vids: &Vec<String>,
    k: usize,
) -> (r: bool)
    requires
        k <= client_vids.len() * args.quantity,
        k <= dummy_vids.len() || args.quantity <= dummy_vids.len(),
    ensures
        r == planned_commands(
            plan_of(*args, vid_cmd_args.deep_view(), client_vids.deep_view(), dummy_vids.deep_view()),
            k as nat,
        ) is Err,
{
    let ghost p = plan_of(
        *args,
        vid_cmd_args.deep_view(),
        client_vids.deep_view(),
        dummy_vids.deep_view(),
    );
    let q = args.quantity;
    let nc = client_vids.len();
    let mut j: usize = 0;
    while j < k
        invariant
            nc == client_vids.len(),
            q == args.quantity,
            p == plan_of(*args, vid_cmd_args.deep_view(), client_vids.deep_view(), dummy_vids.deep_view()),
            k <= nc * q,
            k <= dummy_vids.len() || q <= dummy_vids.len(),
            j <= k,
            planned_commands(p, j as nat) is Ok,
        decreases k - j,
    {
        assert(q > 0) by (nonlinear_arith)
            requires
                j < k,
                k <= nc * q,
        ;
        let ci = j / q;
        let ix = j % q;
        assert(ci < nc) by (nonlinear_arith)
            requires
                j < nc * q,
                q > 0,
                ci == j / q,
        ;
        assert(ix <= j) by (nonlinear_arith)
            requires
                q > 0,
                ix == j % q,
        ;
        let vid1 = client_vids[ci].clone();
        let vid2 = dummy_vids[ix].clone();
        let outname = output_video_name(&args.output_folder, j as u128);
        let filled = update_args_with_substitutions(vid_cmd_args, vid1.as_str(), vid2.as_str(), outname.as_str());
        if filled.is_err() {
            proof {
                assert(vid1@ == p.clients[((j as nat) / p.quantity) as int]);
                assert(vid2@ == p.dummies[((j as nat) % p.quantity) as int]);
                assert(planned_command(p, j as nat) is Err);
                lemma_planned_failure_persists(p, (j + 1) as nat, k as nat);
            }
            return true;
        }
        j += 1;
    }
    false
}

/// Makes a job for every client video and each of the first `args.quantity` dummy
/// videos, in order, numbering them from zero; fails with the reason for the first
/// job whose command line lacks a placeholder.
pub fn create_video_commands(
    args: &Arguments,
    vid_cmd_args: &Vec<String>,
    client_vids: &Vec<String>,
    dummy_vids: &Vec<String>,
) -> (res: Result<Vec<VideoCommand>, VideoError>)
    requires
        plan_is_safe(
            plan_of(*args, vid_cmd_args.deep_view(), client_vids.deep_view(), dummy_vids.deep_view()),
        ),
    ensures
        commands_result(res) == planned_commands(
            plan_of(*args, vid_cmd_args.deep_view(), client_vids.deep_view(), dummy_vids.deep_view()),
            (client_vids.len() * args.quantity) as nat,
        ),
{
    let ghost p = plan_of(
        *args,
        vid_cmd_args.deep_view(),
        client_vids.deep_view(),
        dummy_vids.deep_view(),
    );
    let ghost n: nat = (client_vids.len() * args.quantity) as nat;
    let q = args.quantity;
    let nc = client_vids.len();
    let mut total: i32 = 0;
    let mut all_commands: Vec<VideoCommand> = Vec::new();
    let mut ci: usize = 0;
    assert(all_commands@.map_values(|c: VideoCommand| c@) =~= Seq::<VideoCommandModel>::empty());
    while ci < nc
        invariant
            nc == client_vids.len(),
            q == args.quantity,
            p == plan_of(*args, vid_cmd_args.deep_view(), client_vids.deep_view(), dummy_vids.deep_view()),
            plan_is_safe(p),
            n == nc * q,
            ci <= nc,
            total == ci * q,
            planned_commands(p, total as nat) == Ok::<Seq<VideoCommandModel>, Seq<char>>(all_commands@.map_values(|c: VideoCommand| c@)),
        decreases nc - ci,
    {
        let mut ix: usize = 0;
        assert(ci * q + q <= nc * q) by (nonlinear_arith)
            requires
                ci < nc,
        ;
        assert(ci * q >= 0) by (nonlinear_arith);
        while ix < q
            invariant
                nc == client_vids.len(),
                q == args.quantity,
                p == plan_of(*args, vid_cmd_args.deep_view(), client_vids.deep_view(), dummy_vids.deep_view()),
                plan_is_safe(p),
                n == nc * q,
                ci < nc,
                ix <= q,
                ci * q >= 0,
                ci * q + q <= nc * q,
                total == ci * q + ix,
                planned_commands(p, total as nat) == Ok::<Seq<VideoCommandModel>, Seq<char>>(all_commands@.map_values(|c: VideoCommand| c@)),
            decreases q - ix,
        {
            let ghost k = total as nat;
            proof {
                if ix >= dummy_vids.len() {
                    lemma_planned_failure_persists(p, p.dummies.len(), k);
                }
            }
            let vid1 = client_vids[ci].clone();
            let vid2 = dummy_vids[ix].clone();
            let outname = output_video_name(&args.output_folder, total as u128);
            proof {
                lemma_fundamental_div_mod_converse(k as int, q as int, ci as int, ix as int);
                assert(vid1@ == p.clients[(k / p.quantity) as int]);
                assert(vid2@ == p.dummies[(k % p.quantity) as int]);
                lemma_substituted_len(p.cmd_args, vid1@, vid2@, outname@);
            }
            match update_args_with_substitutions(vid_cmd_args, vid1.as_str(), vid2.as_str(), outname.as_str()) {
                Err(e) => {
                    proof {
                        lemma_planned_failure_persists(p, k + 1, n);
                    }
                    return Err(e);
                },
                Ok(arg_vec) => {
                    let mut arg_vec = arg_vec;
                    let ghost words = arg_vec.deep_view();
                    let cmd_name = arg_vec.remove(0);
                    assert(arg_vec.deep_view() =~= words.drop_first());
                    let cmd = add_arguments_to_command(CommandLine::new(cmd_name), &arg_vec);
                    assert(cmd.args.deep_view() =~= words.drop_first());
                    let video_cmd = VideoCommand {
                        cmd,
                        client_video: vid1,
                        dummy_video: vid2,
                        output_video: outname,
                        ix: total,
                    };
                    let ghost before = all_commands@;
                    all_commands.push(video_cmd);
                    assert(all_commands@.map_values(|c: VideoCommand| c@) =~= before.map_values(
                        |c: VideoCommand| c@,
                    ).push(video_cmd@));
                    assert(total < i32::MAX) by {
                        if total == i32::MAX {
                            assert(planned_commands(p, first_unnumbered_job()) is Ok);
                        }
                    }
                    total += 1;
                },
            }
            ix += 1;
        }
        assert(ci * q + q == (ci + 1) * q) by (nonlinear_arith);
        ci += 1;
    }
    Ok(all_commands)
}

/// Makes the jobs as `create_video_commands` does where that can be done without
/// running out of dummy videos or job numbers (`plan_is_safe`); `None` otherwise.
pub fn create_video_commands_checked(
    args: &Arguments,
    vid_cmd_args: &Vec<String>,
    client_vids: &Vec<String>,
    dummy_vids: &Vec<String>,
) -> (res: Option<Result<Vec<VideoCommand>, VideoError>>)
    ensures
        res is None <==> !plan_is_safe(
            plan_of(*args, vid_cmd_args.deep_view(), client_vids.deep_view(), dummy_vids.deep_view()),
        ),
        res matches Some(r) ==> commands_result(r) == planned_commands(
            plan_of(*args, vid_cmd_args.deep_view(), client_vids.deep_view(), dummy_vids.deep_view()),
            (client_vids.len() * args.quantity) as nat,
        ),
{
    let ghost p = plan_of(
        *args,
        vid_cmd_args.deep_view(),
        client_vids.deep_view(),
        dummy_vids.deep_view(),
    );
    let nc = client_vids.len();
    let q = args.quantity;
    let d = dummy_vids.len();
    let short_of_dummies = nc > 0 && q > d;
    if short_of_dummies {
        assert(d <= nc * q) by (nonlinear_arith)
            requires
                nc > 0,
                q > d,
        ;
        if !plan_prefix_fails(args, vid_cmd_args, client_vids, dummy_vids, d) {
            return None;
        }
    }
    assert((nc as int) * (q as int) <= 0xffff_ffff_ffff_ffff * 0xffff_ffff_ffff_ffff) by (nonlinear_arith)
        requires
            nc <= 0xffff_ffff_ffff_ffff,
            q <= 0xffff_ffff_ffff_ffff,
    ;
    let too_many_jobs = (nc as u128) * (q as u128) > 2147483647u128;
    assert(too_many_jobs == (nc * q > i32::MAX)) by (nonlinear_arith)
        requires
            too_many_jobs == ((nc as u128) * (q as u128) > 2147483647u128),
    ;
    if too_many_jobs {
        assert(nc > 0) by (nonlinear_arith)
            requires
                nc * q > i32::MAX,
        ;
        let m: usize = 2147483648;
        if short_of_dummies && d <= m {
            proof {
                lemma_planned_failure_persists(p, d as nat, first_unnumbered_job());
            }
        } else if !plan_prefix_fails(args, vid_cmd_args, client_vids, dummy_vids, m) {
            return None;
        }
    }
    Some(create_video_commands(args, vid_cmd_args, client_vids, dummy_vids))
}

/// What the csv crate reads from a file of commands: its records, each a list of
/// fields, or the text of the first error it meets.
pub uninterp spec fn space_separated_records(data: Seq<u8>) -> Result<
    Seq<Seq<Seq<char>>>,
    Seq<char>,
>;

/// Records, or the text of an error, as plain values.
pub open spec fn records_result(r: Result<Vec<Vec<String>>, String>) -> Result<
    Seq<Seq<Seq<char>>>,
    Seq<char>,
> {
    match r {
        Ok(v) => Ok(v.deep_view()),
        Err(e) => Err(e@),
    }
}

/// Whether a file of commands is plain text: every byte is ASCII, and none is a
/// double quote or a carriage return.
pub open spec fn plain_command_text(data: Seq<u8>) -> bool {
    forall|i: int| 0 <= i < data.len() ==> data[i] < 128u8 && data[i] != 34u8 && data[i] != 13u8
}

/// ASCII bytes as the characters they stand for.
pub open spec fn ascii_chars(bytes: Seq<u8>) -> Seq<char> {
    bytes.map_values(|b: u8| b as char)
}

/// The lines of a plain file of commands that are not empty, in file order.
pub open spec fn nonblank_lines(data: Seq<u8>) -> Seq<Seq<u8>> {
    split_on(data, 10u8).filter(|line: Seq<u8>| line.len() > 0)
}

/// The records the csv reader gives for a plain file of commands: its non-empty
/// lines in file order, each cut at every space into fields (empty ones included).
pub open spec fn plain_records(data: Seq<u8>) -> Seq<Seq<Seq<char>>> {
    nonblank_lines(data).map_values(
        |line: Seq<u8>| split_on(line, 32u8).map_values(|f: Seq<u8>| ascii_chars(f)),
    )
}

/// A successful read giving the records of a plain file of commands.
pub open spec fn plain_records_read(data: Seq<u8>) -> Result<Seq<Seq<Seq<char>>>, Seq<char>> {
    Ok(plain_records(data))
}

/// Reads `data` with the csv crate (`csv::ReaderBuilder` with `delimiter(b' ')`,
/// `has_headers(false)`, `flexible(true)`, then `Reader::records`) and collects the
/// records, each field as a `String`, up to the first error, whose `Display` text is
/// returned. The outcome is a function of `data` (`space_separated_records`). On
/// plain text (ASCII, no double quote, no carriage return) nothing is quoted, `\n`
/// ends a record, empty lines give no record and each space ends a field, so the
/// records are the non-empty lines in order, cut at spaces (csv-core's reader
/// states `StartRecord`, `StartField` and `InField`); what csv does with quotes,
/// carriage returns and other bytes is left unsaid.
#[verifier::external_body]
fn read_space_separated_records(data: &[u8]) -> (res: Result<Vec<Vec<String>>, String>)
    ensures
        records_result(res) == space_separated_records(data@),
        plain_command_text(data@) ==> records_result(res) == plain_records_read(data@),
{
    let mut reader = csv::ReaderBuilder::new().delimiter(b' ').has_headers(false).flexible(
        true,
    ).from_reader(data);
    reader.records().map(
        |r| r.map(|rec| rec.iter().map(String::from).collect::<Vec<String>>()).map_err(|e| e.to_string()),
    ).collect()
}

/// The fields of a record that are not empty, in order.
pub open spec fn without_empty_fields(record: Seq<Seq<char>>) -> Seq<Seq<char>> {
    record.filter(|f: Seq<char>| f.len() > 0)
}

/// The reason given when the file of commands holds no command.
pub open spec fn empty_commands_text() -> Seq<char> {
    "Commands file is empty"@
}

/// The command lines of a file of commands read as `records`: each record without
/// its empty fields (runs of spaces give empty fields); an error of the reader is
/// passed on, and a file without records is an error.
pub open spec fn command_lines(records: Result<Seq<Seq<Seq<char>>>, Seq<char>>) -> Result<
    Seq<Seq<Seq<char>>>,
    Seq<char>,
> {
    match records {
        Err(e) => Err(e),
        Ok(rs) => if rs.len() == 0 {
            Err(empty_commands_text())
        } else {
            Ok(rs.map_values(|r: Seq<Seq<char>>| without_empty_fields(r)))
        },
    }
}

/// Command lines, or the reason of an error, as plain values.
pub open spec fn lines_result(r: Result<Vec<Vec<String>>, VideoError>) -> Result<
    Seq<Seq<Seq<char>>>,
    Seq<char>,
> {
    match r {
        Ok(v) => Ok(v.deep_view()),
        Err(e) => Err(e.reason@),
    }
}

/// The fields of `record` that are not empty, in order.
fn drop_empty_fields(record: &Vec<String>) -> (res: Vec<String>)
    ensures
        res.deep_view() == without_empty_fields(record.deep_view()),
{
    let ghost fields = record.deep_view();
    let ghost keep = |f: Seq<char>| f.len() > 0;
    let mut res: Vec<String> = Vec::new();
    let n = record.len();
    assert(fields.take(0) =~= Seq::<Seq<char>>::empty());
    proof {
        reveal(Seq::filter);
    }
    assert(res.deep_view() =~= fields.take(0).filter(keep));
    for i in 0..n
        invariant
            n == record.len(),
            fields == record.deep_view(),
            keep == (|f: Seq<char>| f.len() > 0),
            res.deep_view() == fields.take(i as int).filter(keep),
    {
        proof {
            reveal(Seq::filter);
        }
        let ghost before = res.deep_view();
        assert(fields.take(i + 1).drop_last() =~= fields.take(i as int));
        assert(fields.take(i + 1).last() == record@[i as int]@);
        if !record[i].as_str().is_empty() {
            res.push(record[i].clone());
            assert(res.deep_view() =~= before.push(record@[i as int]@));
        } else {
            assert(res.deep_view() =~= before);
        }
    }
    assert(fields.take(n as int) =~= fields);
    res
}

/// The command lines of the records read from a file of commands: every record
/// without its empty fields; the reader's error is passed on as the reason, and no
/// record at all is an error.
pub fn command_lines_from_records(records: Result<Vec<Vec<String>>, String>) -> (res: Result<
    Vec<Vec<String>>,
    VideoError,
>)
    ensures
        lines_result(res) == command_lines(records_result(records)),
{
    match records {
        Err(e) => Err(VideoError { reason: e }),
        Ok(rs) => {
            let n = rs.len();
            let mut all_args: Vec<Vec<String>> = Vec::new();
            for i in 0..n
                invariant
                    n == rs.len(),
                    all_args.deep_view() =~= rs.deep_view().take(i as int).map_values(
                        |r: Seq<Seq<char>>| without_empty_fields(r),
                    ),
            {
                let args = drop_empty_fields(&rs[i]);
                let ghost before = all_args.deep_view();
                all_args.push(args);
                assert(all_args.deep_view() =~= before.push(without_empty_fields(rs@[i as int].deep_view())));
                assert(rs.deep_view().take(i + 1) =~= rs.deep_view().take(i as int).push(
                    rs@[i as int].deep_view(),
                ));
            }
            if n == 0 {
                Err(VideoError::from_reason("Commands file is empty"))
            } else {
                assert(rs.deep_view().take(n as int) =~= rs.deep_view());
                Ok(all_args)
            }
        },
    }
}

/// Reads the command lines of a file of commands, given its bytes: each line holds
/// one command whose words are separated by spaces.
pub fn get_cmd_args(cmds_file_contents: &[u8]) -> (res: Result<Vec<Vec<String>>, VideoError>)
    ensures
        lines_result(res) == command_lines(space_separated_records(cmds_file_contents@)),
        plain_command_text(cmds_file_contents@) ==> lines_result(res) == plain_command_lines(
            cmds_file_contents@,
        ),
{
    let records = read_space_separated_records(cmds_file_contents);
    let res = command_lines_from_records(records);
    proof {
        let data = cmds_file_contents@;
        if plain_command_text(data) {
            let lines = nonblank_lines(data);
            if lines.len() > 0 {
                assert(plain_records(data).map_values(|r: Seq<Seq<char>>| without_empty_fields(r))
                    =~= lines.map_values(
                    |line: Seq<u8>| plain_words(line),
                ));
            }
        }
    }
    res
}

/// The words of a line of a plain file of commands: the line cut at every space,
/// with the empty pieces dropped, in order.
pub open spec fn plain_words(line: Seq<u8>) -> Seq<Seq<char>> {
    split_on(line, 32u8).map_values(|f: Seq<u8>| ascii_chars(f)).filter(|w: Seq<char>| w.len() > 0)
}

/// The command lines of a plain file of commands: its non-empty lines in file
/// order, each as its words; a file without such a line gives the error that it is
/// empty.
pub open spec fn plain_command_lines(data: Seq<u8>) -> Result<Seq<Seq<Seq<char>>>, Seq<char>> {
    let lines = nonblank_lines(data);
    if lines.len() == 0 {
        Err(empty_commands_text())
    } else {
        Ok(lines.map_values(|line: Seq<u8>| plain_words(line)))
    }
}

} // verus!
