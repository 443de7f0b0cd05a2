//! Detecting Node.js, npm and the global `dsh` command: which executable
//! names are tried, how a probe's output becomes a tool record, and the
//! decisions that lead from one probe to the next.
use vstd::prelude::*;

use crate::error_mapper::{error_is, LauncherError};
use crate::models::{EnvironmentInfo, EnvironmentStatus, ToolInfo};
use crate::semver_support::{is_semver, parse_version};
use crate::text::{
    ascii_lowercase, ascii_lowercase_chars, chars_of, char_is_white, copy_opt, copy_string, ends_with,
    ends_with_text, first_chars, is_white, join2, join3, limit_text, opt_view, owned, string_from_chars,
    string_from_range, trim_by, trim_range, trim_start_by, trim_start_range, trim_text, trim_white, CharClass,
};

verus! {

/// Longest captured output kept on a failed command.
pub const CAPTURE_DETAIL_LIMIT: usize = 1200;

/// Longest captured standard output returned by a command.
pub const CAPTURE_LIMIT: usize = 300;

// ---------------------------------------------------------------------------
// Executable names

/// The file names tried for a command: the name alone when it already ends
/// in `.exe`, `.cmd` or `.bat`, else the name with each of those endings and
/// then the bare name.
pub open spec fn candidates_for(name: Seq<char>) -> Seq<Seq<char>> {
    if ends_with(name, ".exe"@) || ends_with(name, ".cmd"@) || ends_with(name, ".bat"@) {
        seq![name]
    } else {
        seq![name + ".exe"@, name + ".cmd"@, name + ".bat"@, name]
    }
}

pub fn command_candidates(name: &str) -> (names: Vec<String>)
    ensures
        names@.map_values(|s: String| s@) == candidates_for(name@),
{
    let mut names: Vec<String> = Vec::new();
    if ends_with_text(name, ".exe") || ends_with_text(name, ".cmd") || ends_with_text(name, ".bat") {
        names.push(owned(name));
        assert(names@.map_values(|s: String| s@) =~= candidates_for(name@));
        return names;
    }
    names.push(join2(name, ".exe"));
    names.push(join2(name, ".cmd"));
    names.push(join2(name, ".bat"));
    names.push(owned(name));
    assert(names@.map_values(|s: String| s@) =~= candidates_for(name@));
    names
}

/// The characters of each string.
pub open spec fn views(v: Seq<String>) -> Seq<Seq<char>> {
    v.map_values(|s: String| s@)
}

/// The directory-and-name pairs tried, in order: every candidate name in
/// the first directory, then in the next, and so on.
pub open spec fn search_pairs(roots: Seq<Seq<char>>, names: Seq<Seq<char>>) -> Seq<(Seq<char>, Seq<char>)>
    decreases roots.len(),
{
    if roots.len() == 0 {
        seq![]
    } else {
        search_pairs(roots.drop_last(), names) + names.map_values(|n: Seq<char>| (roots.last(), n))
    }
}

/// Where a command is looked for, in order: each directory of `extra`, then
/// each directory of PATH, and in each the candidate names of the command
/// (see `candidates_for`). The first pair naming a file is the command.
pub fn search_order(name: &str, extra: &Vec<String>, path_dirs: &Vec<String>) -> (pairs: Vec<(String, String)>)
    ensures
        pairs@.map_values(|p: (String, String)| (p.0@, p.1@)) == search_pairs(
            views(extra@) + views(path_dirs@),
            candidates_for(name@),
        ),
{
    let candidates = command_candidates(name);
    let ghost names = candidates_for(name@);
    let mut roots: Vec<String> = Vec::new();
    let mut i: usize = 0;
    while i < extra.len()
        invariant
            i <= extra.len(),
            views(roots@) == views(extra@).take(i as int),
        decreases extra.len() - i,
    {
        let ghost prev = roots@;
        let item = copy_string(&extra[i]);
        roots.push(item);
        assert(views(roots@) =~= views(prev).push(extra@[i as int]@));
        assert(views(extra@).take(i + 1) =~= views(extra@).take(i as int).push(extra@[i as int]@));
        i = i + 1;
    }
    let mut i: usize = 0;
    while i < path_dirs.len()
        invariant
            i <= path_dirs.len(),
            views(roots@) == views(extra@) + views(path_dirs@).take(i as int),
        decreases path_dirs.len() - i,
    {
        let ghost prev = roots@;
        let item = copy_string(&path_dirs[i]);
        roots.push(item);
        assert(views(roots@) =~= views(prev).push(path_dirs@[i as int]@));
        assert(views(path_dirs@).take(i + 1) =~= views(path_dirs@).take(i as int).push(path_dirs@[i as int]@));
        assert(views(extra@) + views(path_dirs@).take(i + 1) =~= (views(extra@) + views(path_dirs@).take(
            i as int,
        )).push(path_dirs@[i as int]@));
        i = i + 1;
    }
    assert(views(extra@).take(extra.len() as int) =~= views(extra@));
    assert(views(path_dirs@).take(path_dirs.len() as int) =~= views(path_dirs@));
    let ghost rs = views(roots@);
    let mut pairs: Vec<(String, String)> = Vec::new();
    let mut r: usize = 0;
    assert(rs.take(0) =~= Seq::<Seq<char>>::empty());
    while r < roots.len()
        invariant
            r <= roots.len(),
            rs == views(roots@),
            views(candidates@) == names,
            pairs@.map_values(|p: (String, String)| (p.0@, p.1@)) == search_pairs(rs.take(r as int), names),
        decreases roots.len() - r,
    {
        let ghost base = pairs@.map_values(|p: (String, String)| (p.0@, p.1@));
        let mut k: usize = 0;
        while k < candidates.len()
            invariant
                r < roots.len(),
                k <= candidates.len(),
                rs == views(roots@),
                views(candidates@) == names,
                pairs@.map_values(|p: (String, String)| (p.0@, p.1@)) == base + names.take(k as int).map_values(
                    |n: Seq<char>| (rs[r as int], n),
                ),
            decreases candidates.len() - k,
        {
            let ghost prev = pairs@;
            let dir = copy_string(&roots[r]);
            let file = copy_string(&candidates[k]);
            pairs.push((dir, file));
            proof {
                assert(views(candidates@)[k as int] == candidates@[k as int]@);
                assert(views(roots@)[r as int] == roots@[r as int]@);
                assert(pairs@.map_values(|p: (String, String)| (p.0@, p.1@)) =~= prev.map_values(
                    |p: (String, String)| (p.0@, p.1@),
                ).push((rs[r as int], names[k as int])));
                assert(names.take(k + 1) =~= names.take(k as int).push(names[k as int]));
                assert(names.take(k + 1).map_values(|n: Seq<char>| (rs[r as int], n)) =~= names.take(
                    k as int,
                ).map_values(|n: Seq<char>| (rs[r as int], n)).push((rs[r as int], names[k as int])));
                assert(pairs@.map_values(|p: (String, String)| (p.0@, p.1@)) =~= base + names.take(k + 1).map_values(
                    |n: Seq<char>| (rs[r as int], n),
                ));
            }
            k = k + 1;
        }
        proof {
            assert(names.take(candidates.len() as int) =~= names);
            let t = rs.take(r + 1);
            assert(t.drop_last() =~= rs.take(r as int));
            assert(t.last() == rs[r as int]);
        }
        r = r + 1;
    }
    assert(rs.take(roots.len() as int) =~= rs);
    pairs
}

// ---------------------------------------------------------------------------
// Launching a command

/// Windows path separators.
pub open spec fn is_separator(c: char) -> bool {
    c == '/' || c == '\\'
}

/// The last component of a path: the text after its last separator.
pub open spec fn file_name(path: Seq<char>) -> Seq<char>
    decreases path.len(),
{
    if path.len() == 0 {
        path
    } else if is_separator(path.last()) {
        seq![]
    } else {
        file_name(path.drop_last()).push(path.last())
    }
}

/// A batch file: its name has a stem and the extension `cmd` or `bat`, in
/// any ASCII case.
pub open spec fn is_batch(path: Seq<char>) -> bool {
    let lower = ascii_lowercase(file_name(path));
    lower.len() >= 5 && (ends_with(lower, ".cmd"@) || ends_with(lower, ".bat"@))
}

proof fn lemma_file_name(s: Seq<char>, j: int)
    requires
        0 <= j <= s.len(),
        forall|k: int| j <= k < s.len() ==> !is_separator(#[trigger] s[k]),
        j == 0 || is_separator(s[j - 1]),
    ensures
        file_name(s) == s.subrange(j, s.len() as int),
    decreases s.len(),
{
    if j == s.len() {
        if s.len() > 0 {
            assert(s.subrange(j, s.len() as int) =~= Seq::<char>::empty());
        }
    } else {
        let t = s.drop_last();
        assert forall|k: int| j <= k < t.len() implies !is_separator(#[trigger] t[k]) by {
            assert(t[k] == s[k]);
        }
        if j > 0 {
            assert(t[j - 1] == s[j - 1]);
        }
        assert(!is_separator(s[s.len() - 1]));
        lemma_file_name(t, j);
        assert(t.subrange(j, t.len() as int).push(s.last()) =~= s.subrange(j, s.len() as int));
    }
}

/// Whether the path names a batch file (see `is_batch`).
pub fn batch_file(path: &str) -> (r: bool)
    ensures
        r == is_batch(path@),
{
    let chars = chars_of(path);
    let n = chars.len();
    let mut j = n;
    while j > 0 && !(chars[j - 1] == '/' || chars[j - 1] == '\\')
        invariant
            j <= n,
            n == chars.len(),
            forall|k: int| j <= k < n ==> !is_separator(#[trigger] chars@[k]),
        decreases j,
    {
        j = j - 1;
    }
    proof {
        lemma_file_name(path@, j as int);
    }
    let name = string_from_range(&chars, j, n);
    let lower_chars = ascii_lowercase_chars(name.as_str());
    let lower = string_from_chars(&lower_chars);
    lower_chars.len() >= 5 && (ends_with_text(lower.as_str(), ".cmd") || ends_with_text(lower.as_str(), ".bat"))
}

/// The program and arguments that run `path` with `args`, without a
/// console window: a batch file runs through `cmd.exe /d /s /c`, anything
/// else directly.
pub fn launch_plan(path: &str, args: &Vec<String>) -> (plan: (String, Vec<String>))
    ensures
        is_batch(path@) ==> plan.0@ == "cmd.exe"@ && views(plan.1@) == seq!["/d"@, "/s"@, "/c"@, path@]
            + views(args@),
        !is_batch(path@) ==> plan.0@ == path@ && views(plan.1@) == views(args@),
{
    let mut out: Vec<String> = Vec::new();
    let batch = batch_file(path);
    if batch {
        out.push(owned("/d"));
        out.push(owned("/s"));
        out.push(owned("/c"));
        out.push(owned(path));
    }
    let ghost start = views(out@);
    let mut i: usize = 0;
    while i < args.len()
        invariant
            i <= args.len(),
            views(out@) == start + views(args@).take(i as int),
        decreases args.len() - i,
    {
        let ghost prev = out@;
        let item = copy_string(&args[i]);
        out.push(item);
        assert(views(out@) =~= views(prev).push(args@[i as int]@));
        assert(views(args@).take(i + 1) =~= views(args@).take(i as int).push(args@[i as int]@));
        assert(start + views(args@).take(i + 1) =~= (start + views(args@).take(i as int)).push(args@[i as int]@));
        i = i + 1;
    }
    assert(views(args@).take(args.len() as int) =~= views(args@));
    if batch {
        assert(start =~= seq!["/d"@, "/s"@, "/c"@, path@]);
        (owned("cmd.exe"), out)
    } else {
        assert(start =~= Seq::<Seq<char>>::empty());
        assert(views(out@) =~= views(args@));
        (owned(path), out)
    }
}

/// The directory of global executables under an npm prefix: the prefix itself.
pub fn prefix_bin(prefix: &str) -> (bin: String)
    ensures
        bin@ == prefix@,
{
    owned(prefix)
}

// ---------------------------------------------------------------------------
// Running a command

/// What running a command gave.
#[derive(Clone, Debug)]
pub enum CommandOutput {
    /// The command could not be started; the reason.
    SpawnFailed(String),
    /// The command ran to completion.
    Finished { success: bool, stdout: String, stderr: String },
}

/// The captured result of running the command at `path`: its trimmed
/// standard output cut to 300 characters when it succeeded, else an error.
pub fn run_capture(path: &str, output: CommandOutput) -> (r: Result<String, LauncherError>)
    ensures
        match output {
            CommandOutput::SpawnFailed(reason) => r matches Err(e) && error_is(
                e,
                "commandFailed"@,
                "无法执行 "@ + path@ + "。"@,
                Some(first_chars(reason@, 1200)),
                None,
                None,
            ),
            CommandOutput::Finished { success, stdout, stderr } => if success {
                r matches Ok(text) && text@ == first_chars(trim_white(stdout@), 300)
            } else {
                r matches Err(e) && error_is(
                    e,
                    "commandFailed"@,
                    "命令 "@ + path@ + " 执行失败。"@,
                    Some(first_chars(stdout@ + "\n"@ + stderr@, 1200)),
                    None,
                    None,
                )
            },
        },
{
    match output {
        CommandOutput::SpawnFailed(reason) => {
            let message = join3("无法执行 ", path, "。");
            Err(LauncherError::new("commandFailed", message.as_str()).with_detail(reason.as_str()))
        },
        CommandOutput::Finished { success, stdout, stderr } => {
            if !success {
                let combined = join3(stdout.as_str(), "\n", stderr.as_str());
                let detail = limit_text(combined.as_str(), CAPTURE_DETAIL_LIMIT);
                let message = join3("命令 ", path, " 执行失败。");
                proof {
                    let c = stdout@ + "\n"@ + stderr@;
                    assert(first_chars(first_chars(c, 1200), 1200) =~= first_chars(c, 1200));
                }
                return Err(
                    LauncherError::new("commandFailed", message.as_str()).with_detail(detail.as_str()),
                );
            }
            let trimmed = trim_text(stdout.as_str());
            Ok(limit_text(trimmed.as_str(), CAPTURE_LIMIT))
        },
    }
}

// ---------------------------------------------------------------------------
// Version text

/// Length of the run of non-white characters that starts `s`.
pub open spec fn word_len(s: Seq<char>) -> nat
    decreases s.len(),
{
    if s.len() > 0 && !is_white(s[0]) {
        1 + word_len(s.drop_first())
    } else {
        0
    }
}

pub proof fn lemma_word_len_bound(s: Seq<char>)
    ensures
        word_len(s) <= s.len(),
    decreases s.len(),
{
    if s.len() > 0 && !is_white(s[0]) {
        lemma_word_len_bound(s.drop_first());
    }
}

/// `str::split_whitespace`: the maximal runs of non-white characters.
pub open spec fn words(s: Seq<char>) -> Seq<Seq<char>>
    decreases s.len(),
{
    if s.len() == 0 {
        seq![]
    } else if is_white(s[0]) {
        words(s.drop_first())
    } else {
        proof {
            lemma_word_len_bound(s);
        }
        seq![s.take(word_len(s) as int)] + words(s.skip(word_len(s) as int))
    }
}

/// A token as a version candidate: the token without leading and trailing
/// characters that cannot be part of a version, then without leading `v`s.
pub open spec fn clean_token(token: Seq<char>) -> Seq<char> {
    trim_start_by(trim_by(token, CharClass::NotVersionChar), CharClass::LetterV)
}

/// The first token that, cleaned, is a semantic version; cleaned.
pub open spec fn first_version_token(tokens: Seq<Seq<char>>) -> Option<Seq<char>>
    decreases tokens.len(),
{
    if tokens.len() == 0 {
        None
    } else if is_semver(clean_token(tokens[0])) {
        Some(clean_token(tokens[0]))
    } else {
        first_version_token(tokens.drop_first())
    }
}

/// Index of the first line feed in `s` at or after `i`, or the length.
pub open spec fn line_end(s: Seq<char>, i: int) -> int
    decreases s.len() - i,
{
    if i < s.len() && s[i] != '\n' {
        line_end(s, i + 1)
    } else {
        i
    }
}

/// The text before the first line feed.
pub open spec fn first_line(s: Seq<char>) -> Seq<char> {
    s.take(line_end(s, 0))
}

/// The version reported in a tool's `--version` output: the first
/// whitespace-separated token that is a semantic version once stray
/// punctuation and a leading `v` are removed; failing that, the first line,
/// trimmed and without a leading `v`.
pub open spec fn normalized_version(output: Seq<char>) -> Seq<char> {
    match first_version_token(words(output)) {
        Some(token) => token,
        None => trim_start_by(trim_white(first_line(output)), CharClass::LetterV),
    }
}

proof fn lemma_words_white(s: Seq<char>, pos: int)
    requires
        0 <= pos < s.len(),
        is_white(s[pos]),
    ensures
        words(s.skip(pos)) == words(s.skip(pos + 1)),
{
    assert(s.skip(pos).drop_first() =~= s.skip(pos + 1));
}

proof fn lemma_word_len_at(s: Seq<char>, pos: int, end: int)
    requires
        0 <= pos <= end <= s.len(),
        forall|k: int| pos <= k < end ==> !is_white(#[trigger] s[k]),
        end == s.len() || is_white(s[end]),
    ensures
        word_len(s.skip(pos)) == end - pos,
    decreases end - pos,
{
    if pos < end {
        lemma_word_len_at(s, pos + 1, end);
        assert(s.skip(pos).drop_first() =~= s.skip(pos + 1));
    }
}

proof fn lemma_words_word(s: Seq<char>, pos: int, end: int)
    requires
        0 <= pos < end <= s.len(),
        forall|k: int| pos <= k < end ==> !is_white(#[trigger] s[k]),
        end == s.len() || is_white(s[end]),
    ensures
        words(s.skip(pos)) == seq![s.subrange(pos, end)] + words(s.skip(end)),
{
    lemma_word_len_at(s, pos, end);
    let t = s.skip(pos);
    assert(t.take(end - pos) =~= s.subrange(pos, end));
    assert(t.skip(end - pos) =~= s.skip(end));
}

proof fn lemma_first_version_append(done: Seq<Seq<char>>, rest: Seq<Seq<char>>)
    requires
        forall|k: int| 0 <= k < done.len() ==> !is_semver(clean_token(#[trigger] done[k])),
    ensures
        first_version_token(done + rest) == first_version_token(rest),
    decreases done.len(),
{
    if done.len() > 0 {
        let tail = done.drop_first();
        assert((done + rest).drop_first() =~= tail + rest);
        assert((done + rest)[0] == done[0]);
        assert forall|k: int| 0 <= k < tail.len() implies !is_semver(clean_token(#[trigger] tail[k])) by {
            assert(tail[k] == done[k + 1]);
        }
        lemma_first_version_append(tail, rest);
    }
}

proof fn lemma_line_end(s: Seq<char>, i: int, k: int)
    requires
        0 <= i <= k <= s.len(),
        forall|m: int| i <= m < k ==> #[trigger] s[m] != '\n',
        k == s.len() || s[k] == '\n',
    ensures
        line_end(s, i) == k,
    decreases k - i,
{
    if i < k {
        lemma_line_end(s, i + 1, k);
    }
}

/// The cleaned candidate made of `chars[start..end]`.
fn cleaned_token(chars: &Vec<char>, start: usize, end: usize) -> (token: String)
    requires
        start <= end <= chars.len(),
    ensures
        token@ == clean_token(chars@.subrange(start as int, end as int)),
{
    let inner = trim_range(chars, start, end, CharClass::NotVersionChar);
    let stripped = trim_start_range(&inner, 0, inner.len(), CharClass::LetterV);
    assert(inner@.subrange(0, inner@.len() as int) =~= inner@);
    string_from_chars(&stripped)
}

/// The version in a tool's `--version` output (see `normalized_version`).
pub fn normalize_version(value: &str) -> (version: String)
    ensures
        version@ == normalized_version(value@),
{
    let chars = chars_of(value);
    let n = chars.len();
    let mut pos: usize = 0;
    let ghost mut seen: Seq<Seq<char>> = seq![];
    assert(value@.skip(0) =~= value@);
    while pos < n
        invariant
            chars@ == value@,
            n == chars.len(),
            pos <= n,
            words(value@) == seen + words(value@.skip(pos as int)),
            forall|k: int| 0 <= k < seen.len() ==> !is_semver(clean_token(#[trigger] seen[k])),
        decreases n - pos,
    {
        if char_is_white(chars[pos]) {
            proof {
                lemma_words_white(value@, pos as int);
            }
            pos = pos + 1;
        } else {
            let start = pos;
            let mut end = pos + 1;
            while end < n && !char_is_white(chars[end])
                invariant
                    chars@ == value@,
                    n == chars.len(),
                    start < end <= n,
                    forall|k: int| start <= k < end ==> !is_white(#[trigger] value@[k]),
                decreases n - end,
            {
                end = end + 1;
            }
            proof {
                lemma_words_word(value@, start as int, end as int);
            }
            let token = cleaned_token(&chars, start, end);
            let parsed = parse_version(token.as_str());
            let ghost word = value@.subrange(start as int, end as int);
            if parsed.is_some() {
                proof {
                    lemma_first_version_append(seen, seq![word] + words(value@.skip(end as int)));
                    assert((seq![word] + words(value@.skip(end as int)))[0] == word);
                    assert(seen + (seq![word] + words(value@.skip(end as int))) =~= seen + words(
                        value@.skip(start as int),
                    ));
                }
                return token;
            }
            proof {
                assert(seen + (seq![word] + words(value@.skip(end as int))) =~= seen.push(word)
                    + words(value@.skip(end as int)));
                seen = seen.push(word);
            }
            pos = end;
        }
    }
    proof {
        assert(value@.skip(n as int) =~= Seq::<char>::empty());
        assert(words(value@) =~= seen);
        lemma_first_version_append(seen, seq![]);
        assert(seen + Seq::<Seq<char>>::empty() =~= seen);
    }
    let mut k: usize = 0;
    while k < n && chars[k] != '\n'
        invariant
            chars@ == value@,
            n == chars.len(),
            k <= n,
            forall|m: int| 0 <= m < k ==> #[trigger] value@[m] != '\n',
        decreases n - k,
    {
        k = k + 1;
    }
    proof {
        lemma_line_end(value@, 0, k as int);
    }
    let line = trim_range(&chars, 0, k, CharClass::White);
    let stripped = trim_start_range(&line, 0, line.len(), CharClass::LetterV);
    assert(line@.subrange(0, line@.len() as int) =~= line@);
    assert(chars@.subrange(0, k as int) =~= first_line(value@));
    string_from_chars(&stripped)
}

// ---------------------------------------------------------------------------
// Tool records

/// The record of a tool that was not found.
pub open spec fn is_missing_tool(t: ToolInfo) -> bool {
    !t.found && t.path is None && t.version is None && t.error is None
}

pub fn missing_tool() -> (tool: ToolInfo)
    ensures
        is_missing_tool(tool),
{
    ToolInfo { found: false, path: None, version: None, error: None }
}

/// The record of a tool, given its path (if one was resolved) and what
/// running it with its version flag gave: missing without a path; found,
/// with the normalized version, when the run succeeded; found, with the
/// error message, when it failed.
pub fn tool_info(probe: Option<(String, Result<String, LauncherError>)>) -> (tool: ToolInfo)
    ensures
        match probe {
            None => is_missing_tool(tool),
            Some((path, Ok(output))) => tool.found && opt_view(tool.path) == Some(path@) && opt_view(
                tool.version,
            ) == Some(normalized_version(output@)) && tool.error is None,
            Some((path, Err(e))) => tool.found && opt_view(tool.path) == Some(path@) && tool.version is None
                && opt_view(tool.error) == Some(e.message@),
        },
{
    match probe {
        None => missing_tool(),
        Some((path, Ok(output))) => ToolInfo {
            found: true,
            path: Some(path),
            version: Some(normalize_version(output.as_str())),
            error: None,
        },
        Some((path, Err(e))) => ToolInfo { found: true, path: Some(path), version: None, error: Some(e.message) },
    }
}

// ---------------------------------------------------------------------------
// Detection

/// The environment probe. Its steps run commands; the decisions between
/// them are made here.
pub struct EnvironmentService;

/// What has been learned so far while detecting the environment.
#[derive(Debug)]
pub enum DetectStage {
    /// Node.js has been probed.
    Node { node: ToolInfo },
    /// npm has been probed too.
    Npm { node: ToolInfo, npm: ToolInfo },
    /// `npm config get prefix` has been run.
    Prefix { node: ToolInfo, npm: ToolInfo, prefix: Result<String, LauncherError> },
    /// `dsh` has been probed.
    Dsh { node: ToolInfo, npm: ToolInfo, prefix: Option<String>, dsh: ToolInfo },
}

/// What detection does next.
#[derive(Clone, Debug)]
pub enum DetectNext {
    /// Resolve npm (next to Node.js, else on PATH) and probe it.
    ProbeNpm,
    /// Run `npm config get prefix` with the npm at this path.
    ReadPrefix { npm_path: String },
    /// Resolve `dsh`, searching these directories before PATH, and probe it.
    ProbeDsh { prefix: Option<String>, extra_paths: Vec<String> },
    /// Detection is over.
    Done(EnvironmentInfo),
}

/// `info` reports the given tools, prefix, status and time.
pub open spec fn info_is(
    info: EnvironmentInfo,
    node: ToolInfo,
    npm: ToolInfo,
    prefix: Option<Seq<char>>,
    dsh: ToolInfo,
    status: EnvironmentStatus,
    checked_at: Seq<char>,
) -> bool {
    &&& info.node == node
    &&& info.npm == npm
    &&& opt_view(info.prefix) == prefix
    &&& info.dsh == dsh
    &&& info.status == status
    &&& info.checked_at@ == checked_at
}

/// A failed early step: the tools after it are reported missing.
pub open spec fn early_info(
    info: EnvironmentInfo,
    node: ToolInfo,
    npm: ToolInfo,
    status: EnvironmentStatus,
    checked_at: Seq<char>,
) -> bool {
    &&& info.node == node
    &&& info.npm == npm
    &&& info.prefix is None
    &&& is_missing_tool(info.dsh)
    &&& info.status == status
    &&& info.checked_at@ == checked_at
}

/// The prefix that `npm config get prefix` printed, trimmed, if not empty.
pub open spec fn prefix_from(output: Seq<char>) -> Option<Seq<char>> {
    if trim_white(output).len() == 0 {
        None
    } else {
        Some(trim_white(output))
    }
}

/// The status that the `dsh` probe gives.
pub open spec fn dsh_status(dsh: ToolInfo) -> EnvironmentStatus {
    if !dsh.found {
        EnvironmentStatus::MissingDsh
    } else if dsh.version is None {
        EnvironmentStatus::BrokenDsh
    } else {
        EnvironmentStatus::Ready
    }
}

/// `next` asks to probe `dsh`, searching the prefix's bin directory first
/// when there is a prefix.
pub open spec fn probes_dsh_with(next: DetectNext, prefix: Option<Seq<char>>) -> bool {
    next matches DetectNext::ProbeDsh { prefix: p, extra_paths } && opt_view(p) == prefix && extra_paths@.map_values(
        |s: String| s@,
    ) == (match prefix {
        Some(v) => seq![v],
        None => Seq::<Seq<char>>::empty(),
    })
}

fn probe_dsh(prefix: Option<String>) -> (next: DetectNext)
    ensures
        probes_dsh_with(next, opt_view(prefix)),
{
    let mut extra_paths: Vec<String> = Vec::new();
    match &prefix {
        Some(p) => {
            extra_paths.push(prefix_bin(p.as_str()));
        },
        None => {},
    }
    assert(extra_paths@.map_values(|s: String| s@) =~= (match opt_view(prefix) {
        Some(v) => seq![v],
        None => Seq::<Seq<char>>::empty(),
    }));
    DetectNext::ProbeDsh { prefix, extra_paths }
}

impl EnvironmentService {
    /// The next step of detection, given what has been learned: Node.js
    /// must be found and report a version, then npm, then npm's prefix must
    /// be readable; the first failure ends detection with its status. The
    /// `dsh` probe decides the final status.
    pub fn detect(&self, stage: DetectStage, checked_at: String) -> (next: DetectNext)
        ensures
            match stage {
                DetectStage::Node { node } => if !node.found {
                    next matches DetectNext::Done(info) && early_info(
                        info,
                        node,
                        info.npm,
                        EnvironmentStatus::MissingNode,
                        checked_at@,
                    ) && is_missing_tool(info.npm)
                } else if node.version is None {
                    next matches DetectNext::Done(info) && early_info(
                        info,
                        node,
                        info.npm,
                        EnvironmentStatus::BrokenNode,
                        checked_at@,
                    ) && is_missing_tool(info.npm)
                } else {
                    next is ProbeNpm
                },
                DetectStage::Npm { node, npm } => if !npm.found {
                    next matches DetectNext::Done(info) && early_info(
                        info,
                        node,
                        npm,
                        EnvironmentStatus::MissingNpm,
                        checked_at@,
                    )
                } else if npm.version is None {
                    next matches DetectNext::Done(info) && early_info(
                        info,
                        node,
                        npm,
                        EnvironmentStatus::BrokenNpm,
                        checked_at@,
                    )
                } else {
                    match npm.path {
                        Some(p) => next matches DetectNext::ReadPrefix { npm_path } && npm_path@ == p@,
                        None => probes_dsh_with(next, None),
                    }
                },
                DetectStage::Prefix { node, npm, prefix } => match prefix {
                    Ok(output) => probes_dsh_with(next, prefix_from(output@)),
                    Err(e) => next matches DetectNext::Done(info) && early_info(
                        info,
                        node,
                        ToolInfo { error: Some(e.message), ..npm },
                        EnvironmentStatus::BrokenNpm,
                        checked_at@,
                    ),
                },
                DetectStage::Dsh { node, npm, prefix, dsh } => next matches DetectNext::Done(info)
                    && info_is(info, node, npm, opt_view(prefix), dsh, dsh_status(dsh), checked_at@),
            },
    {
        match stage {
            DetectStage::Node { node } => {
                if !node.found {
                    return DetectNext::Done(
                        EnvironmentInfo {
                            node,
                            npm: missing_tool(),
                            prefix: None,
                            dsh: missing_tool(),
                            status: EnvironmentStatus::MissingNode,
                            checked_at,
                        },
                    );
                }
                if node.version.is_none() {
                    return DetectNext::Done(
                        EnvironmentInfo {
                            node,
                            npm: missing_tool(),
                            prefix: None,
                            dsh: missing_tool(),
                            status: EnvironmentStatus::BrokenNode,
                            checked_at,
                        },
                    );
                }
                DetectNext::ProbeNpm
            },
            DetectStage::Npm { node, npm } => {
                if !npm.found {
                    return DetectNext::Done(
                        EnvironmentInfo {
                            node,
                            npm,
                            prefix: None,
                            dsh: missing_tool(),
                            status: EnvironmentStatus::MissingNpm,
                            checked_at,
                        },
                    );
                }
                if npm.version.is_none() {
                    return DetectNext::Done(
                        EnvironmentInfo {
                            node,
                            npm,
                            prefix: None,
                            dsh: missing_tool(),
                            status: EnvironmentStatus::BrokenNpm,
                            checked_at,
                        },
                    );
                }
                match &npm.path {
                    Some(p) => DetectNext::ReadPrefix { npm_path: p.clone() },
                    None => probe_dsh(None),
                }
            },
            DetectStage::Prefix { node, npm, prefix } => match prefix {
                Ok(output) => {
                    let trimmed = trim_text(output.as_str());
                    let value = if trimmed.as_str().is_empty() {
                        None
                    } else {
                        Some(trimmed)
                    };
                    probe_dsh(value)
                },
                Err(e) => DetectNext::Done(
                    EnvironmentInfo {
                        node,
                        npm: ToolInfo { error: Some(e.message), ..npm },
                        prefix: None,
                        dsh: missing_tool(),
                        status: EnvironmentStatus::BrokenNpm,
                        checked_at,
                    },
                ),
            },
            DetectStage::Dsh { node, npm, prefix, dsh } => {
                let status = if !dsh.found {
                    EnvironmentStatus::MissingDsh
                } else if dsh.version.is_none() {
                    EnvironmentStatus::BrokenDsh
                } else {
                    EnvironmentStatus::Ready
                };
                DetectNext::Done(EnvironmentInfo { node, npm, prefix, dsh, status, checked_at })
            },
        }
    }

    /// The installed DSH version: none when `dsh` was not found.
    pub fn current_dsh_version(&self, detected: &EnvironmentInfo) -> (r: Result<Option<String>, LauncherError>)
        ensures
            r matches Ok(v) && opt_view(v) == (if detected.dsh.found {
                opt_view(detected.dsh.version)
            } else {
                None
            }),
    {
        if !detected.dsh.found {
            return Ok(None);
        }
        Ok(copy_opt(&detected.dsh.version))
    }

    /// The npm executable, given the one that resolving found.
    pub fn npm_path(&self, resolved: Option<String>) -> (r: Result<String, LauncherError>)
        ensures
            match resolved {
                Some(p) => r matches Ok(path) && path == p,
                None => r matches Err(e) && error_is(
                    e,
                    "npmMissing"@,
                    "未检测到 npm 可执行文件。"@,
                    None,
                    Some("修复 Node.js/npm 安装或检查 PATH，然后重新启动启动器。"@),
                    None,
                ),
            },
    {
        match resolved {
            Some(p) => Ok(p),
            None => Err(
                LauncherError::new("npmMissing", "未检测到 npm 可执行文件。").with_action(
                    "修复 Node.js/npm 安装或检查 PATH，然后重新启动启动器。",
                ),
            ),
        }
    }

    /// The `dsh` executable that detection found.
    pub fn dsh_path(&self, detected: &EnvironmentInfo) -> (r: Result<String, LauncherError>)
        ensures
            match detected.dsh.path {
                Some(p) => r matches Ok(path) && path@ == p@,
                None => r matches Err(e) && error_is(
                    e,
                    "dshMissing"@,
                    "未检测到全局 dsh 命令。"@,
                    None,
                    Some("前往版本管理页安装 @deepseek-ai/dsh。"@),
                    None,
                ),
            },
    {
        match &detected.dsh.path {
            Some(p) => Ok(p.clone()),
            None => Err(
                LauncherError::new("dshMissing", "未检测到全局 dsh 命令。").with_action(
                    "前往版本管理页安装 @deepseek-ai/dsh。",
                ),
            ),
        }
    }
}

} // verus!
