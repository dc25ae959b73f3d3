//! The merge pipeline: validating downloaded episode files,
//! assembling the concatenation manifest and the tool's argument
//! lists, the fast-path/fallback staging, and the rate-limited merge
//! progress reports.
//!
//! The filesystem probes and the subprocesses run outside the
//! library; their outcomes come in as plain values.

use vstd::prelude::*;
use crate::progress::{spec_clamped_percentage, clamped_percentage};
use crate::text::{dec_str, push_char, u64_to_string};
use crate::timecode::{spec_ffmpeg_time_ms, parse_ffmpeg_time};
use vstd::string::StrSliceExecFns;
use vstd::string::StringExecFns;

verus! {

/// Everything the pipeline needs to know about one candidate file,
/// as probed by the runner: existence and size from the filesystem,
/// the duration from the inspection tool, and the canonical absolute
/// path (when it could be resolved).
#[derive(Clone, Debug)]
pub struct CandidateProbe {
    pub path: String,
    pub exists: bool,
    pub size: u64,
    /// Duration the inspection tool reported, in milliseconds;
    /// `None` when the probe failed.
    pub duration_ms: Option<u64>,
    /// Canonical absolute path; `None` when resolution failed.
    pub canonical: Option<String>,
}

/// A candidate takes part in the merge when it exists, is at least
/// 1 KiB, and the inspection tool reported a positive duration.
pub open spec fn candidate_valid(p: CandidateProbe) -> bool {
    &&& p.exists
    &&& p.size >= 1024
    &&& p.duration_ms matches Some(d) && d > 0
}

pub fn validate_candidate(p: &CandidateProbe) -> (r: bool)
    ensures
        r == candidate_valid(*p),
{
    p.exists && p.size >= 1024 && (match p.duration_ms {
        Some(d) => d > 0,
        None => false,
    })
}

/// The valid candidates, in order.
pub open spec fn valid_probes(ps: Seq<CandidateProbe>) -> Seq<CandidateProbe>
    decreases ps.len(),
{
    if ps.len() == 0 {
        Seq::empty()
    } else {
        valid_probes(ps.drop_last()) + (if candidate_valid(ps.last()) {
            seq![ps.last()]
        } else {
            Seq::empty()
        })
    }
}

/// The summed duration of the valid candidates, in milliseconds.
pub open spec fn sum_durations(ps: Seq<CandidateProbe>) -> int
    decreases ps.len(),
{
    if ps.len() == 0 {
        0
    } else {
        sum_durations(ps.drop_last()) + (if candidate_valid(ps.last()) {
            ps.last().duration_ms->0 as int
        } else {
            0
        })
    }
}

pub proof fn lemma_sum_durations_nonneg(ps: Seq<CandidateProbe>)
    ensures
        sum_durations(ps) >= 0,
    decreases ps.len(),
{
    if ps.len() > 0 {
        lemma_sum_durations_nonneg(ps.drop_last());
    }
}

/// A path escaped for the concatenation manifest: each single quote
/// becomes `'\''`.
pub open spec fn escape_quote(s: Seq<char>) -> Seq<char>
    decreases s.len(),
{
    if s.len() == 0 {
        Seq::empty()
    } else {
        escape_quote(s.drop_last()) + (if s.last() == '\'' {
            seq!['\'', '\\', '\'', '\'']
        } else {
            seq![s.last()]
        })
    }
}

fn escape_quote_str(s: &str) -> (r: String)
    ensures
        r@ == escape_quote(s@),
{
    let n = s.unicode_len();
    let mut out = String::new();
    let mut i: usize = 0;
    while i < n
        invariant
            i <= n,
            n == s@.len(),
            out@ == escape_quote(s@.take(i as int)),
        decreases n - i,
    {
        let c = s.get_char(i);
        proof {
            let t = s@.take(i + 1);
            assert(t.drop_last() =~= s@.take(i as int));
            assert(t.last() == s@[i as int]);
        }
        if c == '\'' {
            out.append("'\\''");
            proof {
                reveal_strlit("'\\''");
                assert("'\\''"@ =~= seq!['\'', '\\', '\'', '\'']);
                assert(out@ =~= escape_quote(s@.take(i as int)) + seq!['\'', '\\', '\'', '\'']);
            }
        } else {
            push_char(&mut out, c);
            proof {
                assert(out@ =~= escape_quote(s@.take(i as int)) + seq![s@[i as int]]);
            }
        }
        i = i + 1;
    }
    proof {
        assert(s@.take(n as int) =~= s@);
    }
    out
}

/// One manifest line: `file '<escaped path>'` and a newline.
pub open spec fn manifest_line(path: Seq<char>) -> Seq<char> {
    seq!['f', 'i', 'l', 'e', ' ', '\''] + escape_quote(path) + seq!['\'', '\n']
}

/// The whole manifest: one line per input file, in merge order.
pub open spec fn spec_manifest(paths: Seq<Seq<char>>) -> Seq<char>
    decreases paths.len(),
{
    if paths.len() == 0 {
        Seq::empty()
    } else {
        spec_manifest(paths.drop_last()) + manifest_line(paths.last())
    }
}

/// Build the concatenation manifest for these (canonical) input
/// paths.
pub fn concat_manifest(files: &Vec<String>) -> (r: String)
    ensures
        r@ == spec_manifest(files.deep_view()),
{
    let mut out = String::new();
    let mut i: usize = 0;
    proof {
        assert(files.deep_view().take(0) =~= Seq::<Seq<char>>::empty());
    }
    while i < files.len()
        invariant
            i <= files@.len(),
            out@ == spec_manifest(files.deep_view().take(i as int)),
        decreases files@.len() - i,
    {
        proof {
            let t = files.deep_view().take(i + 1);
            assert(t.drop_last() =~= files.deep_view().take(i as int));
            assert(t.last() == files.deep_view()[i as int]);
            assert(files.deep_view()[i as int] == files@[i as int]@);
        }
        out.append("file '");
        let esc = escape_quote_str(files[i].as_str());
        out.append(esc.as_str());
        out.append("'\n");
        proof {
            reveal_strlit("file '");
            assert("file '"@ =~= seq!['f', 'i', 'l', 'e', ' ', '\'']);
            reveal_strlit("'\n");
            assert("'\n"@ =~= seq!['\'', '\n']);
            assert(out@ =~= spec_manifest(files.deep_view().take(i as int)) + manifest_line(
                files@[i as int]@,
            ));
        }
        i = i + 1;
    }
    proof {
        assert(files.deep_view().take(files@.len() as int) =~= files.deep_view());
    }
    out
}

/// The input labels of the concatenation filter graph:
/// `[0:v][0:a][1:v][1:a]…` for each input in order.
pub open spec fn filter_inputs(n: int) -> Seq<char>
    decreases n,
{
    if n <= 0 {
        Seq::empty()
    } else {
        filter_inputs(n - 1) + seq!['['] + dec_str(n - 1) + seq![':', 'v', ']', '['] + dec_str(
            n - 1,
        ) + seq![':', 'a', ']']
    }
}

/// The whole filter graph: the input labels, then
/// `concat=n=<n>:v=1:a=1[outv][outa]`.
pub open spec fn spec_filter_graph(n: int) -> Seq<char> {
    filter_inputs(n) + seq!['c', 'o', 'n', 'c', 'a', 't', '=', 'n', '='] + dec_str(n) + seq![
        ':',
        'v',
        '=',
        '1',
        ':',
        'a',
        '=',
        '1',
        '[',
        'o',
        'u',
        't',
        'v',
        ']',
        '[',
        'o',
        'u',
        't',
        'a',
        ']',
    ]
}

/// Build the concatenation filter graph for `n` inputs.
pub fn build_filter_graph(n: usize) -> (r: String)
    ensures
        r@ == spec_filter_graph(n as int),
{
    let mut out = String::new();
    let mut i: usize = 0;
    while i < n
        invariant
            i <= n,
            out@ == filter_inputs(i as int),
        decreases n - i,
    {
        let num = u64_to_string(i as u64);
        out.append("[");
        out.append(num.as_str());
        out.append(":v][");
        out.append(num.as_str());
        out.append(":a]");
        proof {
            reveal_strlit("[");
            reveal_strlit(":v][");
            reveal_strlit(":a]");
            assert("["@ =~= seq!['[']);
            assert(":v]["@ =~= seq![':', 'v', ']', '[']);
            assert(":a]"@ =~= seq![':', 'a', ']']);
            assert(out@ =~= filter_inputs(i + 1));
        }
        i = i + 1;
    }
    let count = u64_to_string(n as u64);
    out.append("concat=n=");
    out.append(count.as_str());
    out.append(":v=1:a=1[outv][outa]");
    proof {
        reveal_strlit("concat=n=");
        reveal_strlit(":v=1:a=1[outv][outa]");
        assert("concat=n="@ =~= seq!['c', 'o', 'n', 'c', 'a', 't', '=', 'n', '=']);
        assert(":v=1:a=1[outv][outa]"@ =~= seq![
            ':',
            'v',
            '=',
            '1',
            ':',
            'a',
            '=',
            '1',
            '[',
            'o',
            'u',
            't',
            'v',
            ']',
            '[',
            'o',
            'u',
            't',
            'a',
            ']',
        ]);
        assert(out@ =~= spec_filter_graph(n as int));
    }
    out
}

/// The fast path's argument list: overwrite the output, read the
/// manifest with the concatenation reader, and copy the streams
/// without re-encoding.
pub open spec fn spec_fast_args(list_path: Seq<char>, output_path: Seq<char>) -> Seq<Seq<char>> {
    seq![
        seq!['-', 'y'],
        seq!['-', 'f'],
        seq!['c', 'o', 'n', 'c', 'a', 't'],
        seq!['-', 's', 'a', 'f', 'e'],
        seq!['0'],
        seq!['-', 'i'],
        list_path,
        seq!['-', 'c'],
        seq!['c', 'o', 'p', 'y'],
        output_path,
    ]
}

pub fn fast_args(list_path: &str, output_path: &str) -> (r: Vec<String>)
    ensures
        r.deep_view() == spec_fast_args(list_path@, output_path@),
{
    let mut args: Vec<String> = Vec::new();
    args.push(String::from_str("-y"));
    args.push(String::from_str("-f"));
    args.push(String::from_str("concat"));
    args.push(String::from_str("-safe"));
    args.push(String::from_str("0"));
    args.push(String::from_str("-i"));
    args.push(String::from_str(list_path));
    args.push(String::from_str("-c"));
    args.push(String::from_str("copy"));
    args.push(String::from_str(output_path));
    proof {
        reveal_strlit("-y");
        reveal_strlit("-f");
        reveal_strlit("concat");
        reveal_strlit("-safe");
        reveal_strlit("0");
        reveal_strlit("-i");
        reveal_strlit("-c");
        reveal_strlit("copy");
        assert("-y"@ =~= seq!['-', 'y']);
        assert("-f"@ =~= seq!['-', 'f']);
        assert("concat"@ =~= seq!['c', 'o', 'n', 'c', 'a', 't']);
        assert("-safe"@ =~= seq!['-', 's', 'a', 'f', 'e']);
        assert("0"@ =~= seq!['0']);
        assert("-i"@ =~= seq!['-', 'i']);
        assert("-c"@ =~= seq!['-', 'c']);
        assert("copy"@ =~= seq!['c', 'o', 'p', 'y']);
        assert(args.deep_view() =~= spec_fast_args(list_path@, output_path@));
    }
    args
}

/// The `-i <file>` pairs of the fallback's argument list.
pub open spec fn input_args(files: Seq<Seq<char>>) -> Seq<Seq<char>>
    decreases files.len(),
{
    if files.len() == 0 {
        Seq::empty()
    } else {
        input_args(files.drop_last()) + seq![seq!['-', 'i'], files.last()]
    }
}

/// The fallback's argument list: every input named explicitly, the
/// concatenation filter graph, and a re-encode with the fast preset,
/// moderate quality factor and fixed audio bitrate.
pub open spec fn spec_reencode_args(files: Seq<Seq<char>>, output_path: Seq<char>) -> Seq<
    Seq<char>,
> {
    seq![seq!['-', 'y']] + input_args(files) + seq![
        seq!['-', 'f', 'i', 'l', 't', 'e', 'r', '_', 'c', 'o', 'm', 'p', 'l', 'e', 'x'],
        spec_filter_graph(files.len() as int),
        seq!['-', 'm', 'a', 'p'],
        seq!['[', 'o', 'u', 't', 'v', ']'],
        seq!['-', 'm', 'a', 'p'],
        seq!['[', 'o', 'u', 't', 'a', ']'],
        seq!['-', 'c', ':', 'v'],
        seq!['l', 'i', 'b', 'x', '2', '6', '4'],
        seq!['-', 'p', 'r', 'e', 's', 'e', 't'],
        seq!['u', 'l', 't', 'r', 'a', 'f', 'a', 's', 't'],
        seq!['-', 'c', 'r', 'f'],
        seq!['2', '3'],
        seq!['-', 'c', ':', 'a'],
        seq!['a', 'a', 'c'],
        seq!['-', 'b', ':', 'a'],
        seq!['1', '2', '8', 'k'],
        output_path,
    ]
}

pub fn reencode_args(files: &Vec<String>, output_path: &str) -> (r: Vec<String>)
    ensures
        r.deep_view() == spec_reencode_args(files.deep_view(), output_path@),
{
    let mut args: Vec<String> = Vec::new();
    args.push(String::from_str("-y"));
    proof {
        reveal_strlit("-y");
        assert("-y"@ =~= seq!['-', 'y']);
        assert(input_args(files.deep_view().take(0)) =~= Seq::<Seq<char>>::empty());
        assert(args.deep_view() =~= seq![seq!['-', 'y']] + input_args(files.deep_view().take(0)));
    }
    let mut i: usize = 0;
    while i < files.len()
        invariant
            i <= files@.len(),
            args.deep_view() == seq![seq!['-', 'y']] + input_args(files.deep_view().take(i as int)),
        decreases files@.len() - i,
    {
        let ghost prev = args.deep_view();
        args.push(String::from_str("-i"));
        args.push(files[i].clone());
        proof {
            reveal_strlit("-i");
            assert("-i"@ =~= seq!['-', 'i']);
            let t = files.deep_view().take(i + 1);
            assert(t.drop_last() =~= files.deep_view().take(i as int));
            assert(t.last() == files@[i as int]@);
            assert(input_args(t) == input_args(files.deep_view().take(i as int)) + seq![
                seq!['-', 'i'],
                files@[i as int]@,
            ]);
            assert(args.deep_view() =~= prev + seq![seq!['-', 'i'], files@[i as int]@]);
            assert(args.deep_view() =~= seq![seq!['-', 'y']] + input_args(t));
        }
        i = i + 1;
    }
    proof {
        assert(files.deep_view().take(files@.len() as int) =~= files.deep_view());
    }
    let filter = build_filter_graph(files.len());
    args.push(String::from_str("-filter_complex"));
    args.push(filter);
    args.push(String::from_str("-map"));
    args.push(String::from_str("[outv]"));
    args.push(String::from_str("-map"));
    args.push(String::from_str("[outa]"));
    args.push(String::from_str("-c:v"));
    args.push(String::from_str("libx264"));
    args.push(String::from_str("-preset"));
    args.push(String::from_str("ultrafast"));
    args.push(String::from_str("-crf"));
    args.push(String::from_str("23"));
    args.push(String::from_str("-c:a"));
    args.push(String::from_str("aac"));
    args.push(String::from_str("-b:a"));
    args.push(String::from_str("128k"));
    args.push(String::from_str(output_path));
    proof {
        reveal_strlit("-filter_complex");
        reveal_strlit("-map");
        reveal_strlit("[outv]");
        reveal_strlit("[outa]");
        reveal_strlit("-c:v");
        reveal_strlit("libx264");
        reveal_strlit("-preset");
        reveal_strlit("ultrafast");
        reveal_strlit("-crf");
        reveal_strlit("23");
        reveal_strlit("-c:a");
        reveal_strlit("aac");
        reveal_strlit("-b:a");
        reveal_strlit("128k");
        assert("-filter_complex"@ =~= seq![
            '-',
            'f',
            'i',
            'l',
            't',
            'e',
            'r',
            '_',
            'c',
            'o',
            'm',
            'p',
            'l',
            'e',
            'x',
        ]);
        assert("-map"@ =~= seq!['-', 'm', 'a', 'p']);
        assert("[outv]"@ =~= seq!['[', 'o', 'u', 't', 'v', ']']);
        assert("[outa]"@ =~= seq!['[', 'o', 'u', 't', 'a', ']']);
        assert("-c:v"@ =~= seq!['-', 'c', ':', 'v']);
        assert("libx264"@ =~= seq!['l', 'i', 'b', 'x', '2', '6', '4']);
        assert("-preset"@ =~= seq!['-', 'p', 'r', 'e', 's', 'e', 't']);
        assert("ultrafast"@ =~= seq!['u', 'l', 't', 'r', 'a', 'f', 'a', 's', 't']);
        assert("-crf"@ =~= seq!['-', 'c', 'r', 'f']);
        assert("23"@ =~= seq!['2', '3']);
        assert("-c:a"@ =~= seq!['-', 'c', ':', 'a']);
        assert("aac"@ =~= seq!['a', 'a', 'c']);
        assert("-b:a"@ =~= seq!['-', 'b', ':', 'a']);
        assert("128k"@ =~= seq!['1', '2', '8', 'k']);
        assert(args.deep_view() =~= spec_reencode_args(files.deep_view(), output_path@));
    }
    args
}

/// Paths of the candidates joined for an error report.
pub open spec fn spec_join_comma(fs: Seq<Seq<char>>) -> Seq<char>
    decreases fs.len(),
{
    if fs.len() == 0 {
        Seq::empty()
    } else if fs.len() == 1 {
        fs[0]
    } else {
        spec_join_comma(fs.drop_last()) + seq![',', ' '] + fs.last()
    }
}

fn join_comma(files: &Vec<String>) -> (r: String)
    ensures
        r@ == spec_join_comma(files.deep_view()),
{
    let mut out = String::new();
    let mut i: usize = 0;
    proof {
        assert(files.deep_view().take(0) =~= Seq::<Seq<char>>::empty());
    }
    while i < files.len()
        invariant
            i <= files@.len(),
            out@ == spec_join_comma(files.deep_view().take(i as int)),
        decreases files@.len() - i,
    {
        proof {
            let t = files.deep_view().take(i + 1);
            assert(t.drop_last() =~= files.deep_view().take(i as int));
            assert(t.last() == files@[i as int]@);
            if i == 0 {
                assert(t =~= seq![files@[0int]@]);
            }
        }
        if i > 0 {
            out.append(", ");
            proof {
                reveal_strlit(", ");
                assert(", "@ =~= seq![',', ' ']);
            }
        }
        out.append(files[i].as_str());
        proof {
            assert(out@ =~= spec_join_comma(files.deep_view().take(i + 1)));
        }
        i = i + 1;
    }
    proof {
        assert(files.deep_view().take(files@.len() as int) =~= files.deep_view());
    }
    out
}

/// Why a merge could not be carried out, mirroring the error
/// taxonomy: validation emptied the candidate set, the filesystem
/// failed, the tool could not be invoked, or both attempts failed.
#[derive(Clone, Debug)]
pub enum MergeError {
    /// There was nothing to merge at all.
    NoInput,
    /// Every candidate failed validation.
    NoneValid,
    /// A validated file's canonical path could not be resolved.
    CannotFind { file: String },
    /// The concatenation manifest could not be written.
    ManifestWrite { detail: String },
    /// The merge tool could not be started.
    SpawnFailed { detail: String },
    /// The tool's diagnostic stream could not be captured.
    StderrCapture,
    /// Waiting for the tool's exit failed.
    ProcessWait { detail: String },
    /// Both the fast path and the re-encode fallback failed; the
    /// files that passed validation but still would not merge are the
    /// suspects.
    Exhausted { files: Vec<String> },
}

impl MergeError {
    /// The human-readable report for this error.
    pub fn message(&self) -> (m: String)
        ensures
            match self {
                MergeError::NoInput => m@ == "No videos to merge"@,
                MergeError::NoneValid => m@
                    == "No valid video files to merge - all files appear incomplete or corrupted"@,
                MergeError::CannotFind { file } => m@ == "Cannot find file "@ + file@,
                MergeError::ManifestWrite { detail } => m@ == "Failed to create concat list: "@
                    + detail@,
                MergeError::SpawnFailed { detail } => m@ == "Failed to run FFmpeg: "@ + detail@,
                MergeError::StderrCapture => m@ == "Failed to capture FFmpeg stderr"@,
                MergeError::ProcessWait { detail } => m@ == "FFmpeg process error: "@ + detail@,
                MergeError::Exhausted { files } => m@
                    == "FFmpeg merge failed. The following files may be corrupted/incomplete: "@
                    + spec_join_comma(files.deep_view()),
            },
    {
        match self {
            MergeError::NoInput => String::from_str("No videos to merge"),
            MergeError::NoneValid => String::from_str(
                "No valid video files to merge - all files appear incomplete or corrupted",
            ),
            MergeError::CannotFind { file } => {
                let mut m = String::from_str("Cannot find file ");
                m.append(file.as_str());
                m
            },
            MergeError::ManifestWrite { detail } => {
                let mut m = String::from_str("Failed to create concat list: ");
                m.append(detail.as_str());
                m
            },
            MergeError::SpawnFailed { detail } => {
                let mut m = String::from_str("Failed to run FFmpeg: ");
                m.append(detail.as_str());
                m
            },
            MergeError::StderrCapture => String::from_str("Failed to capture FFmpeg stderr"),
            MergeError::ProcessWait { detail } => {
                let mut m = String::from_str("FFmpeg process error: ");
                m.append(detail.as_str());
                m
            },
            MergeError::Exhausted { files } => {
                let mut m = String::from_str(
                    "FFmpeg merge failed. The following files may be corrupted/incomplete: ",
                );
                let joined = join_comma(files);
                m.append(joined.as_str());
                m
            },
        }
    }
}

/// The warning accompanying dropped candidates.
pub fn skipped_warning(skipped: usize) -> (m: String)
    ensures
        m@ == "Warning: "@ + dec_str(skipped as int) + " files skipped (corrupted/incomplete)"@,
{
    let mut m = String::from_str("Warning: ");
    let n = u64_to_string(skipped as u64);
    m.append(n.as_str());
    m.append(" files skipped (corrupted/incomplete)");
    m
}

/// What the runner must execute for a merge.
pub enum MergeScript {
    /// Exactly one valid file: copy it to the output (no transcoding)
    /// and report completion at once.
    CopySingle { source: String, skipped: usize },
    /// Several valid files: write `manifest` to the manifest path, try
    /// the fast stream-copy arguments, and fall back to the re-encode
    /// arguments if that exits unsuccessfully.
    Concat {
        files: Vec<String>,
        manifest: String,
        fast_args: Vec<String>,
        reencode_args: Vec<String>,
        total_ms: u64,
        skipped: usize,
    },
}

/// Every valid candidate's canonical path resolved.
pub open spec fn all_canonical(vs: Seq<CandidateProbe>) -> bool {
    forall|i: int| 0 <= i < vs.len() ==> (#[trigger] vs[i].canonical) is Some
}

/// The canonical paths of these candidates, in order.
pub open spec fn canonical_paths(vs: Seq<CandidateProbe>) -> Seq<Seq<char>> {
    Seq::new(vs.len(), |i: int| vs[i].canonical->0@)
}

/// The valid candidates of a prefix come first, unchanged, in the
/// valid candidates of the whole.
proof fn lemma_valid_probes_split(ps: Seq<CandidateProbe>, j: int)
    requires
        0 <= j <= ps.len(),
    ensures
        valid_probes(ps) == valid_probes(ps.take(j)) + valid_probes(ps.skip(j)),
    decreases ps.len() - j,
{
    if j == ps.len() {
        assert(ps.take(j) =~= ps);
        assert(valid_probes(ps.skip(j)) =~= Seq::<CandidateProbe>::empty());
        assert(valid_probes(ps) + Seq::<CandidateProbe>::empty() =~= valid_probes(ps));
        assert(valid_probes(ps.take(j)) + valid_probes(ps.skip(j)) =~= valid_probes(ps));
    } else {
        lemma_valid_probes_split(ps, j + 1);
        let t = ps.take(j + 1);
        assert(t.drop_last() =~= ps.take(j));
        assert(t.last() == ps[j]);
        let u = ps.skip(j);
        let w = ps.skip(j + 1);
        // peel the first element of the suffix: a small induction of
        // its own, on the suffix length
        lemma_valid_probes_cons(u);
        assert(u.drop_first() =~= w);
        assert(u[0] == ps[j]);
        if candidate_valid(ps[j]) {
            assert(valid_probes(t) == valid_probes(ps.take(j)) + seq![ps[j]]);
            assert(valid_probes(u) == seq![ps[j]] + valid_probes(w));
            assert(valid_probes(ps.take(j)) + valid_probes(u) =~= (valid_probes(ps.take(j))
                + seq![ps[j]]) + valid_probes(w));
        } else {
            assert(valid_probes(t) == valid_probes(ps.take(j)));
            assert(valid_probes(u) == valid_probes(w));
        }
    }
}

/// Unrolling `valid_probes` from the front.
proof fn lemma_valid_probes_cons(s: Seq<CandidateProbe>)
    requires
        s.len() > 0,
    ensures
        valid_probes(s) == (if candidate_valid(s[0]) {
            seq![s[0]] + valid_probes(s.drop_first())
        } else {
            valid_probes(s.drop_first())
        }),
    decreases s.len(),
{
    if s.len() == 1 {
        assert(s.drop_last() =~= Seq::<CandidateProbe>::empty());
        assert(s.drop_first() =~= Seq::<CandidateProbe>::empty());
        if candidate_valid(s[0]) {
            assert(valid_probes(s) =~= seq![s[0]]);
            assert(seq![s[0]] + valid_probes(s.drop_first()) =~= seq![s[0]]);
        }
    } else {
        let d = s.drop_last();
        lemma_valid_probes_cons(d);
        assert(d[0] == s[0]);
        assert(d.drop_first() =~= s.drop_first().drop_last());
        assert(s.drop_first().last() == s.last());
        if candidate_valid(s[0]) {
            assert(valid_probes(s) == valid_probes(d) + (if candidate_valid(s.last()) {
                seq![s.last()]
            } else {
                Seq::<CandidateProbe>::empty()
            }));
            assert(valid_probes(s.drop_first()) == valid_probes(s.drop_first().drop_last()) + (
            if candidate_valid(s.last()) {
                seq![s.last()]
            } else {
                Seq::<CandidateProbe>::empty()
            }));
            assert(valid_probes(s) =~= seq![s[0]] + valid_probes(s.drop_first()));
        } else {
            assert(valid_probes(s) =~= valid_probes(s.drop_first()));
        }
    }
}

/// Plan a merge from the candidate probes: validate, and produce
/// either the single-file copy or the full two-stage script —
/// manifest text, fast-path arguments and fallback arguments — for
/// the runner to execute against `output_path`, with the manifest at
/// `list_path`.
pub fn merge_videos(probes: &Vec<CandidateProbe>, output_path: &str, list_path: &str) -> (r:
    Result<MergeScript, MergeError>)
    ensures
        ({
            let ps = probes@;
            let vs = valid_probes(ps);
            &&& (r matches Err(e) && e matches MergeError::NoInput <==> ps.len() == 0)
            &&& (r matches Err(e) && e matches MergeError::NoneValid <==> ps.len() > 0 && vs.len()
                == 0)
            &&& (vs.len() == 1 ==> (r matches Ok(s) && s matches MergeScript::CopySingle {
                source,
                skipped,
            } && source@ == vs[0].path@ && skipped == ps.len() - 1))
            &&& (vs.len() >= 2 && all_canonical(vs) ==> (r matches Ok(s)
                && s matches MergeScript::Concat {
                files,
                manifest,
                fast_args,
                reencode_args,
                total_ms,
                skipped,
            } && files.deep_view() == canonical_paths(vs) && manifest@ == spec_manifest(
                canonical_paths(vs),
            ) && fast_args.deep_view() == spec_fast_args(list_path@, output_path@)
                && reencode_args.deep_view() == spec_reencode_args(
                canonical_paths(vs),
                output_path@,
            ) && total_ms == crate::progress::cap64(sum_durations(ps)) && skipped == ps.len()
                - vs.len()))
            &&& (vs.len() >= 2 && !all_canonical(vs) ==> (r matches Err(e)
                && e matches MergeError::CannotFind { file } && exists|i: int|
                0 <= i < vs.len() && (#[trigger] vs[i].canonical) is None && file@ == vs[i].path@))
        }),
{
    let n = probes.len();
    if n == 0 {
        return Err(MergeError::NoInput);
    }
    // first pass: count the valid candidates, remember the first
    // one's path, and sum the durations (saturating)
    let mut vcount: usize = 0;
    let mut first_source: Option<String> = None;
    let mut total: u64 = 0;
    let mut i: usize = 0;
    proof {
        assert(probes@.take(0) =~= Seq::<CandidateProbe>::empty());
    }
    while i < n
        invariant
            i <= n,
            n == probes@.len(),
            vcount == valid_probes(probes@.take(i as int)).len(),
            vcount <= i,
            total as int == crate::progress::cap64(sum_durations(probes@.take(i as int))),
            match first_source {
                Some(s) => vcount > 0 && s@ == valid_probes(probes@.take(i as int))[0].path@,
                None => vcount == 0,
            },
        decreases n - i,
    {
        let ghost t = probes@.take(i + 1);
        proof {
            assert(t.drop_last() =~= probes@.take(i as int));
            assert(t.last() == probes@[i as int]);
            lemma_sum_durations_nonneg(probes@.take(i as int));
        }
        let p = &probes[i];
        if validate_candidate(p) {
            if vcount == 0 {
                first_source = Some(p.path.clone());
            }
            vcount = vcount + 1;
            let d = match p.duration_ms {
                Some(d) => d,
                None => 0,
            };
            total = if d <= u64::MAX - total {
                total + d
            } else {
                u64::MAX
            };
        }
        i = i + 1;
    }
    proof {
        assert(probes@.take(n as int) =~= probes@);
    }
    if vcount == 0 {
        return Err(MergeError::NoneValid);
    }
    if vcount == 1 {
        let source = match first_source {
            Some(s) => s,
            None => {
                proof {
                    assert(false);
                }
                return Err(MergeError::NoneValid);
            },
        };
        return Ok(MergeScript::CopySingle { source, skipped: n - 1 });
    }
    // second pass: the canonical path of every valid candidate, in
    // order, stopping at the first that could not be resolved
    let mut canon: Vec<String> = Vec::new();
    let mut i: usize = 0;
    proof {
        assert(probes@.take(n as int) =~= probes@);
        assert(valid_probes(probes@).len() == vcount as int);
        assert(probes@.take(0) =~= Seq::<CandidateProbe>::empty());
        assert(canon.deep_view() =~= canonical_paths(valid_probes(probes@.take(0))));
    }
    while i < n
        invariant
            i <= n,
            n == probes@.len(),
            vcount >= 2,
            valid_probes(probes@).len() == vcount as int,
            all_canonical(valid_probes(probes@.take(i as int))),
            canon.deep_view() == canonical_paths(valid_probes(probes@.take(i as int))),
        decreases n - i,
    {
        let ghost t = probes@.take(i + 1);
        proof {
            assert(t.drop_last() =~= probes@.take(i as int));
            assert(t.last() == probes@[i as int]);
        }
        let p = &probes[i];
        if validate_candidate(p) {
            match &p.canonical {
                Some(c) => {
                    let ghost prev = canon.deep_view();
                    canon.push(c.clone());
                    proof {
                        let vs0 = valid_probes(probes@.take(i as int));
                        let vs1 = valid_probes(t);
                        assert(vs1 == vs0 + seq![probes@[i as int]]);
                        assert(canon.deep_view() =~= prev.push(
                            probes@[i as int].canonical->0@,
                        ));
                        assert(canonical_paths(vs1) =~= prev.push(
                            probes@[i as int].canonical->0@,
                        )) by {
                            assert(forall|k: int|
                                0 <= k < vs0.len() ==> vs1[k] == vs0[k]);
                            assert(vs1[vs0.len() as int] == probes@[i as int]);
                        }
                        assert(canon.deep_view() =~= canonical_paths(vs1));
                    }
                },
                None => {
                    proof {
                        lemma_valid_probes_split(probes@, i + 1);
                        let vs_pre = valid_probes(probes@.take(i as int));
                        let vs1 = valid_probes(t);
                        assert(vs1 == vs_pre + seq![probes@[i as int]]);
                        let vs = valid_probes(probes@);
                        assert(vs == vs1 + valid_probes(probes@.skip(i + 1)));
                        let k = vs_pre.len() as int;
                        assert(vs1[k] == probes@[i as int]);
                        assert(vs[k] == probes@[i as int]) by {
                            assert(0 <= k < vs1.len());
                        }
                        assert(vs[k].canonical is None);
                        assert(vs[k].path == probes@[i as int].path);
                        assert(!all_canonical(vs));
                    }
                    return Err(MergeError::CannotFind { file: p.path.clone() });
                },
            }
        } else {
            proof {
                assert(valid_probes(t) == valid_probes(probes@.take(i as int)));
            }
        }
        i = i + 1;
    }
    proof {
        assert(probes@.take(n as int) =~= probes@);
    }
    let manifest = concat_manifest(&canon);
    let fast = fast_args(list_path, output_path);
    let reenc = reencode_args(&canon, output_path);
    Ok(
        MergeScript::Concat {
            files: canon,
            manifest,
            fast_args: fast,
            reencode_args: reenc,
            total_ms: total,
            skipped: n - vcount,
        },
    )
}

/// Which merge attempt is running.
#[derive(Clone, Copy, Debug, PartialEq, Eq, Structural)]
pub enum MergeStage {
    /// Stream-copy concatenation against the manifest.
    FastConcat,
    /// Filter-graph concatenation with re-encoding.
    Reencode,
}

/// What follows an attempt's exit.
#[derive(Clone, Copy, Debug, PartialEq, Eq, Structural)]
pub enum AttemptOutcome {
    /// Emit the final 100% report and finish successfully.
    Complete,
    /// Run the re-encode fallback, against the same input set.
    Fallback,
    /// Both attempts failed: report the suspect files.
    Exhausted,
}

/// The two-tier degradation policy: a failed fast path always falls
/// back to the re-encode before any error surfaces; a failed
/// re-encode exhausts the merge.
pub fn on_attempt_exit(stage: MergeStage, exit_success: bool) -> (o: AttemptOutcome)
    ensures
        exit_success ==> o == AttemptOutcome::Complete,
        !exit_success && stage == MergeStage::FastConcat ==> o == AttemptOutcome::Fallback,
        !exit_success && stage == MergeStage::Reencode ==> o == AttemptOutcome::Exhausted,
{
    if exit_success {
        AttemptOutcome::Complete
    } else {
        match stage {
            MergeStage::FastConcat => AttemptOutcome::Fallback,
            MergeStage::Reencode => AttemptOutcome::Exhausted,
        }
    }
}

/// One merge progress report.
#[derive(Clone, Debug)]
pub struct MergeProgress {
    /// Whole percent of the expected duration, clamped to 100.
    pub percentage: u64,
    /// Elapsed media time the tool reported, in milliseconds.
    pub current_time_ms: u64,
    /// Expected total duration, in milliseconds; 0 when unknown.
    pub total_duration_ms: u64,
}

/// The cadence state for merge progress: reports at most every
/// 500 ms of wall time.
pub struct MergeProgressTracker {
    pub total_ms: u64,
    pub last_emit_ms: u64,
}

pub fn tracker_start(total_ms: u64, now_ms: u64) -> (t: MergeProgressTracker)
    ensures
        t.total_ms == total_ms,
        t.last_emit_ms == now_ms,
{
    MergeProgressTracker { total_ms, last_emit_ms: now_ms }
}

/// Digest one diagnostic line: when it carries a time marker and a
/// report is due, the report's percentage is the clamped share of the
/// expected duration — never above 100, and non-decreasing in the
/// reported time.
pub fn on_progress_line(t: &mut MergeProgressTracker, line: &str, now_ms: u64) -> (emit: Option<
    MergeProgress,
>)
    requires
        now_ms >= old(t).last_emit_ms,
    ensures
        final(t).total_ms == old(t).total_ms,
        match spec_ffmpeg_time_ms(line@) {
            Some(v) => {
                if v <= u64::MAX && now_ms - old(t).last_emit_ms >= 500 {
                    &&& emit matches Some(p) && p.current_time_ms == v && p.total_duration_ms
                        == old(t).total_ms && p.percentage == spec_clamped_percentage(
                        v,
                        old(t).total_ms as int,
                    ) && p.percentage <= 100
                    &&& final(t).last_emit_ms == now_ms
                } else {
                    emit is None && final(t).last_emit_ms == old(t).last_emit_ms
                }
            },
            None => emit is None && final(t).last_emit_ms == old(t).last_emit_ms,
        },
{
    proof {
        crate::timecode::lemma_ffmpeg_time_nonneg(line@);
    }
    match parse_ffmpeg_time(line) {
        Some(current) => {
            if now_ms - t.last_emit_ms >= 500 {
                let pct = clamped_percentage(current, t.total_ms);
                t.last_emit_ms = now_ms;
                Some(
                    MergeProgress {
                        percentage: pct,
                        current_time_ms: current,
                        total_duration_ms: t.total_ms,
                    },
                )
            } else {
                None
            }
        },
        None => None,
    }
}

/// The completion report a successful attempt ends with: exactly
/// 100%, at the expected duration. (The single-file copy path reports
/// this with a zero duration.)
pub fn final_merge_progress(total_ms: u64) -> (p: MergeProgress)
    ensures
        p.percentage == 100,
        p.current_time_ms == total_ms,
        p.total_duration_ms == total_ms,
{
    MergeProgress { percentage: 100, current_time_ms: total_ms, total_duration_ms: total_ms }
}

} // verus!
