//! Properties of the library as a whole, proved over the models its functions'
//! contracts use.

use vstd::prelude::*;
use crate::command_builder::{
    bottom_placeholder, command_lines, empty_commands_text, is_placeholder, lemma_substituted_len, planned_command,
    out_placeholder, output_name, planned_commands, replace_first, substituted, top_placeholder,
    without_empty_fields, StackingPlan, VideoCommandModel,
};
use crate::text::{decimal, lemma_decimal_injective, lemma_split_lines_len, split_on};
use crate::validation::{
    command_index_check, dummy_check, is_video_entry, is_video_extension_text, video_paths,
    FolderEntry, FolderScan,
};

verus! {

/// The placeholders are three different words.
proof fn lemma_placeholders_differ()
    ensures
        top_placeholder() != bottom_placeholder(),
        top_placeholder() != out_placeholder(),
        bottom_placeholder() != out_placeholder(),
{
    reveal_strlit("TOP_VID");
    reveal_strlit("BOTTOM_VID");
    reveal_strlit("OUT_VID");
    assert(top_placeholder().len() != bottom_placeholder().len());
    assert(top_placeholder()[0] != out_placeholder()[0]);
    assert(bottom_placeholder().len() != out_placeholder().len());
}

/// Filling the placeholders keeps the length of the command line.
pub proof fn law_substitution_keeps_length(
    input: Seq<Seq<char>>,
    top: Seq<char>,
    bottom: Seq<char>,
    out: Seq<char>,
)
    ensures
        substituted(input, top, bottom, out) matches Ok(s) ==> s.len() == input.len(),
{
    lemma_substituted_len(input, top, bottom, out);
}

/// Filling the placeholders changes no word that is not a placeholder.
pub proof fn law_substitution_keeps_other_words(
    input: Seq<Seq<char>>,
    top: Seq<char>,
    bottom: Seq<char>,
    out: Seq<char>,
)
    ensures
        substituted(input, top, bottom, out) matches Ok(s) ==> forall|i: int|
            0 <= i < input.len() && !is_placeholder(input[i]) ==> s[i] == input[i],
{
    input.index_of_first_ensures(top_placeholder());
    if let Some(s1) = replace_first(input, top_placeholder(), top) {
        s1.index_of_first_ensures(bottom_placeholder());
        if let Some(s2) = replace_first(s1, bottom_placeholder(), bottom) {
            s2.index_of_first_ensures(out_placeholder());
        }
    }
}

/// When no video given is itself a placeholder that is filled later, a filled
/// command line holds the top video, the bottom video and the output video.
pub proof fn law_substitution_places_videos(
    input: Seq<Seq<char>>,
    top: Seq<char>,
    bottom: Seq<char>,
    out: Seq<char>,
)
    requires
        top != bottom_placeholder(),
        top != out_placeholder(),
        bottom != out_placeholder(),
    ensures
        substituted(input, top, bottom, out) matches Ok(s) ==> s.contains(top) && s.contains(
            bottom,
        ) && s.contains(out),
{
    input.index_of_first_ensures(top_placeholder());
    if let Some(s1) = replace_first(input, top_placeholder(), top) {
        let i1 = input.index_of_first(top_placeholder())->0;
        s1.index_of_first_ensures(bottom_placeholder());
        if let Some(s2) = replace_first(s1, bottom_placeholder(), bottom) {
            let i2 = s1.index_of_first(bottom_placeholder())->0;
            s2.index_of_first_ensures(out_placeholder());
            if let Some(s3) = replace_first(s2, out_placeholder(), out) {
                let i3 = s2.index_of_first(out_placeholder())->0;
                assert(i2 != i1);
                assert(i3 != i1 && i3 != i2);
                assert(s3[i1] == top);
                assert(s3[i2] == bottom);
                assert(s3[i3] == out);
            }
        }
    }
}

/// A command line that holds the three placeholders can always be filled.
pub proof fn law_substitution_succeeds_with_placeholders(
    input: Seq<Seq<char>>,
    top: Seq<char>,
    bottom: Seq<char>,
    out: Seq<char>,
)
    requires
        input.contains(top_placeholder()),
        input.contains(bottom_placeholder()),
        input.contains(out_placeholder()),
    ensures
        substituted(input, top, bottom, out) is Ok,
{
    lemma_placeholders_differ();
    input.index_of_first_ensures(top_placeholder());
    let i1 = input.index_of_first(top_placeholder())->0;
    let s1 = input.update(i1, top);
    let j = choose|j: int| 0 <= j < input.len() && input[j] == bottom_placeholder();
    assert(j != i1);
    assert(s1[j] == bottom_placeholder());
    s1.index_of_first_ensures(bottom_placeholder());
    let i2 = s1.index_of_first(bottom_placeholder())->0;
    let s2 = s1.update(i2, bottom);
    let k = choose|k: int| 0 <= k < input.len() && input[k] == out_placeholder();
    assert(k != i1);
    assert(s1[k] == out_placeholder());
    assert(k != i2);
    assert(s2[k] == out_placeholder());
    s2.index_of_first_ensures(out_placeholder());
}

/// When no video given is itself a placeholder that is filled later, a command
/// line can be filled only if it holds the three placeholders.
pub proof fn law_substitution_needs_placeholders(
    input: Seq<Seq<char>>,
    top: Seq<char>,
    bottom: Seq<char>,
    out: Seq<char>,
)
    requires
        top != bottom_placeholder(),
        top != out_placeholder(),
        bottom != out_placeholder(),
    ensures
        substituted(input, top, bottom, out) is Ok ==> input.contains(top_placeholder())
            && input.contains(bottom_placeholder()) && input.contains(out_placeholder()),
{
    lemma_placeholders_differ();
    input.index_of_first_ensures(top_placeholder());
    if let Some(s1) = replace_first(input, top_placeholder(), top) {
        let i1 = input.index_of_first(top_placeholder())->0;
        s1.index_of_first_ensures(bottom_placeholder());
        if let Some(s2) = replace_first(s1, bottom_placeholder(), bottom) {
            let i2 = s1.index_of_first(bottom_placeholder())->0;
            assert(i2 != i1);
            assert(input[i2] == bottom_placeholder());
            s2.index_of_first_ensures(out_placeholder());
            if let Some(s3) = replace_first(s2, out_placeholder(), out) {
                let i3 = s2.index_of_first(out_placeholder())->0;
                assert(i3 != i1 && i3 != i2);
                assert(input[i3] == out_placeholder());
            }
        }
    }
}

/// A file of commands read without error gives at least one command line, and no
/// word of any command line is empty.
pub proof fn law_command_lines_have_no_empty_words(records: Result<Seq<Seq<Seq<char>>>, Seq<char>>)
    ensures
        command_lines(records) matches Ok(lines) ==> lines.len() >= 1 && forall|i: int, j: int|
            0 <= i < lines.len() && 0 <= j < lines[i].len() ==> lines[i][j].len() > 0,
{
    if let Ok(rs) = records {
        if rs.len() > 0 {
            let lines = rs.map_values(|r: Seq<Seq<char>>| without_empty_fields(r));
            assert forall|i: int, j: int|
                0 <= i < lines.len() && 0 <= j < lines[i].len() implies lines[i][j].len() > 0 by {
                rs[i].lemma_filter_pred(|f: Seq<char>| f.len() > 0, j);
            }
        }
    }
}

/// A file of commands fails to give command lines exactly when the reader fails or
/// finds no record.
pub proof fn law_command_lines_fail_when_empty(records: Result<Seq<Seq<Seq<char>>>, Seq<char>>)
    ensures
        command_lines(records) is Err <==> (records is Err || records->Ok_0.len() == 0),
        (records matches Ok(rs) && rs.len() == 0) ==> command_lines(records) == Err::<
            Seq<Seq<Seq<char>>>,
            Seq<char>,
        >(empty_commands_text()),
{
}

/// Two different job numbers give two different output names.
pub proof fn law_output_names_differ(folder: Seq<char>, a: nat, b: nat)
    requires
        a != b,
    ensures
        output_name(folder, a) != output_name(folder, b),
{
    if output_name(folder, a) == output_name(folder, b) {
        let head = folder + "/stacked_video"@;
        let tail = ".mp4"@;
        let la = decimal(a).len();
        let lb = decimal(b).len();
        assert(output_name(folder, a).len() == head.len() + la + tail.len());
        assert(output_name(folder, b).len() == head.len() + lb + tail.len());
        assert(output_name(folder, a).subrange(head.len() as int, (head.len() + la) as int) =~= decimal(a));
        assert(output_name(folder, b).subrange(head.len() as int, (head.len() + lb) as int) =~= decimal(b));
        lemma_decimal_injective(a, b);
    }
}

/// Whether `job` is job number `k` of the plan: it stacks client video
/// `k / quantity` over dummy video `k % quantity`, writes the `k`-th output name,
/// and runs the command line filled with these videos.
pub open spec fn is_job_number(p: StackingPlan, job: VideoCommandModel, k: int) -> bool {
    &&& job.ix == k
    &&& job.client_video == p.clients[k / p.quantity as int]
    &&& job.dummy_video == p.dummies[k % p.quantity as int]
    &&& job.output_video == output_name(p.output_folder, k as nat)
    &&& substituted(p.cmd_args, job.client_video, job.dummy_video, job.output_video) == Ok::<
        Seq<Seq<char>>,
        Seq<char>,
    >(seq![job.program] + job.args)
}

/// A successful plan of `n` jobs has exactly `n` jobs, numbered from zero in order;
/// job `k` stacks client video `k / quantity` over dummy video `k % quantity`,
/// writes the `k`-th output name, and runs the filled command line.
pub proof fn law_plan_shape(p: StackingPlan, n: nat)
    ensures
        planned_commands(p, n) matches Ok(cs) ==> {
            &&& cs.len() == n
            &&& forall|k: int| 0 <= k < n ==> #[trigger] is_job_number(p, cs[k], k)
        },
    decreases n,
{
    if n > 0 {
        let m = (n - 1) as nat;
        law_plan_shape(p, m);
        if let Ok(cs) = planned_commands(p, n) {
            let prev = planned_commands(p, m)->Ok_0;
            let job = planned_command(p, m)->Ok_0;
            assert(cs == prev.push(job));
            let c = p.clients[(m / p.quantity) as int];
            let d = p.dummies[(m % p.quantity) as int];
            let out = output_name(p.output_folder, m);
            lemma_substituted_len(p.cmd_args, c, d, out);
            let words = substituted(p.cmd_args, c, d, out)->Ok_0;
            assert(seq![words[0]] + words.drop_first() =~= words);
            assert forall|k: int| 0 <= k < n implies #[trigger] is_job_number(p, cs[k], k) by {
                if k < m {
                    assert(cs[k] == prev[k]);
                    assert(is_job_number(p, prev[k], k));
                } else {
                    assert(cs[k] == job);
                }
            }
        }
    }
}

/// The jobs of a successful plan write to pairwise different output videos.
pub proof fn law_plan_outputs_distinct(p: StackingPlan, n: nat)
    ensures
        planned_commands(p, n) matches Ok(cs) ==> forall|i: int, j: int|
            0 <= i < cs.len() && 0 <= j < cs.len() && i != j ==> cs[i].output_video
                != cs[j].output_video,
{
    law_plan_shape(p, n);
    if let Ok(cs) = planned_commands(p, n) {
        assert forall|i: int, j: int|
            0 <= i < cs.len() && 0 <= j < cs.len() && i != j implies cs[i].output_video
                != cs[j].output_video by {
            assert(is_job_number(p, cs[i], i));
            assert(is_job_number(p, cs[j], j));
            law_output_names_differ(p.output_folder, i as nat, j as nat);
        }
    }
}

/// When the command line holds the three placeholders, every job of the plan can
/// be made.
pub proof fn law_plan_succeeds_with_placeholders(p: StackingPlan, n: nat)
    requires
        p.cmd_args.contains(top_placeholder()),
        p.cmd_args.contains(bottom_placeholder()),
        p.cmd_args.contains(out_placeholder()),
    ensures
        planned_commands(p, n) is Ok,
    decreases n,
{
    if n > 0 {
        law_plan_succeeds_with_placeholders(p, (n - 1) as nat);
        let k = (n - 1) as nat;
        law_substitution_succeeds_with_placeholders(
            p.cmd_args,
            p.clients[(k / p.quantity) as int],
            p.dummies[(k % p.quantity) as int],
            output_name(p.output_folder, k),
        );
    }
}

/// When the dummies pass the check for `quantity` videos, the folder was read and
/// holds at least `quantity` video files: enough to make the jobs of every client
/// video.
pub proof fn law_dummy_check_provides_enough_videos(quantity: nat, folder: Seq<char>, scan: FolderScan)
    ensures
        dummy_check(quantity, folder, scan) is Ok ==> scan.exists,
        dummy_check(quantity, folder, scan) is Ok ==> (scan.listing matches Ok(entries)
            && quantity <= video_paths(entries@).len()),
{
}

/// Filling puts each video where its own placeholder first stands in the command
/// line: the first `TOP_VID` of the input becomes the top video, the first
/// `BOTTOM_VID` the bottom video and the first `OUT_VID` the output video, and
/// every other word stays; this holds when no video given is itself a placeholder
/// that is filled later.
pub proof fn law_substitution_fills_each_placeholder_with_its_video(
    input: Seq<Seq<char>>,
    top: Seq<char>,
    bottom: Seq<char>,
    out: Seq<char>,
)
    requires
        top != "BOTTOM_VID"@,
        top != "OUT_VID"@,
        bottom != "OUT_VID"@,
    ensures
        substituted(input, top, bottom, out) matches Ok(s) ==> {
            &&& input.index_of_first("TOP_VID"@) matches Some(it)
            &&& input.index_of_first("BOTTOM_VID"@) matches Some(ib)
            &&& input.index_of_first("OUT_VID"@) matches Some(io)
            &&& s[it] == top
            &&& s[ib] == bottom
            &&& s[io] == out
            &&& s == input.update(it, top).update(ib, bottom).update(io, out)
        },
{
    lemma_placeholders_differ();
    let tp = top_placeholder();
    let bp = bottom_placeholder();
    let op = out_placeholder();
    input.index_of_first_ensures(tp);
    input.index_of_first_ensures(bp);
    input.index_of_first_ensures(op);
    if let Some(s1) = replace_first(input, tp, top) {
        let it = input.index_of_first(tp)->0;
        s1.index_of_first_ensures(bp);
        if let Some(s2) = replace_first(s1, bp, bottom) {
            let i2 = s1.index_of_first(bp)->0;
            // The first bottom placeholder of `s1` is the first one of the input.
            assert(input[i2] == bp);
            assert(input.contains(bp));
            let ib = input.index_of_first(bp)->0;
            assert(s1[ib] == bp);
            assert(i2 == ib);
            s2.index_of_first_ensures(op);
            if let Some(s3) = replace_first(s2, op, out) {
                let i3 = s2.index_of_first(op)->0;
                assert(input[i3] == op);
                assert(input.contains(op));
                let io = input.index_of_first(op)->0;
                assert(s2[io] == op);
                assert(i3 == io);
                assert(io != it && io != ib && ib != it);
                assert(s3 =~= input.update(it, top).update(ib, bottom).update(io, out));
            }
        }
    }
}

/// When the dummies folder exists and was read, the check for `quantity` videos
/// passes exactly when the folder holds at least `quantity` video files.
pub proof fn law_dummy_check_accepts_enough_videos(
    quantity: nat,
    folder: Seq<char>,
    scan: FolderScan,
    entries: Vec<FolderEntry>,
)
    requires
        scan.exists,
        scan.listing == Ok::<Vec<FolderEntry>, String>(entries),
    ensures
        dummy_check(quantity, folder, scan) is Ok <==> quantity <= video_paths(entries@).len(),
{
}

/// The extensions of video files, in a fixed list.
pub open spec fn video_extension_names() -> Seq<Seq<char>> {
    seq!["avi"@, "mov"@, "mp4"@, "mpg"@, "mpeg"@, "wmv"@]
}

/// An extension is taken for a video exactly when it is one of avi, mov, mp4,
/// mpg, mpeg and wmv.
pub proof fn law_video_extensions_are_the_listed_ones(e: Seq<char>)
    ensures
        is_video_extension_text(e) <==> video_extension_names().contains(e),
{
    let names = video_extension_names();
    if is_video_extension_text(e) {
        if e == "avi"@ {
            assert(names[0] == e);
        } else if e == "mov"@ {
            assert(names[1] == e);
        } else if e == "mp4"@ {
            assert(names[2] == e);
        } else if e == "mpg"@ {
            assert(names[3] == e);
        } else if e == "mpeg"@ {
            assert(names[4] == e);
        } else {
            assert(names[5] == e);
        }
    }
}

/// Whether an entry's extension is in the fixed list of video extensions.
pub open spec fn has_listed_extension(e: FolderEntry) -> bool {
    e.extension matches Some(x) && video_extension_names().contains(x@)
}

/// The video files of a folder are the paths of exactly those entries whose
/// extension is one of the listed video extensions, in the order of the entries;
/// every such entry's path is among them.
pub proof fn law_video_files_are_the_entries_with_video_extensions(entries: Seq<FolderEntry>)
    ensures
        video_paths(entries) == entries.filter(|e: FolderEntry| has_listed_extension(e)).map_values(
            |e: FolderEntry| e.path@,
        ),
        forall|i: int|
            0 <= i < entries.len() && #[trigger] has_listed_extension(entries[i]) ==> video_paths(
                entries,
            ).contains(entries[i].path@),
{
    let listed = |e: FolderEntry| has_listed_extension(e);
    let keep = |e: FolderEntry| is_video_entry(e);
    assert forall|e: FolderEntry| #[trigger] keep(e) == listed(e) by {
        if let Some(x) = e.extension {
            law_video_extensions_are_the_listed_ones(x@);
        }
    }
    assert(keep =~= listed);
    let kept = entries.filter(keep);
    assert forall|i: int|
        0 <= i < entries.len() && #[trigger] has_listed_extension(entries[i]) implies video_paths(
            entries,
        ).contains(entries[i].path@) by {
        entries.lemma_filter_contains(keep, i);
        let j = choose|j: int| 0 <= j < kept.len() && kept[j] == entries[i];
        assert(video_paths(entries)[j] == entries[i].path@);
    }
}

/// On a file of commands that was read, the chosen index passes the check exactly
/// when the text, split at each `\n`, has a piece with that index.
pub proof fn law_command_index_is_a_piece_of_the_text(ix: nat, text: String)
    ensures
        command_index_check(ix, Ok::<String, String>(text)) is Ok <==> ix < split_on(
            text@,
            '\n',
        ).len(),
{
    lemma_split_lines_len(text@);
}

} // verus!
