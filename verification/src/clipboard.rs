//! Clipboard rules: the attachment kind of a pasted image, the file paths a
//! pasted text names, and the URI list written when files are copied.

use vstd::prelude::*;
use crate::find::{first_where, lemma_first_where_found, lemma_first_where_none};
use crate::text::{
    chars_of, chars_starts_with, push_str, starts_with, str_eq, string_from,
    string_of, trim, trim_chars, opt_seq,
};

verus! {

/// Attachment kind and file extension of a pasted image by its MIME type;
/// unknown types are plain documents.
pub open spec fn image_kind_spec(mime: Seq<char>) -> (Seq<char>, Seq<char>) {
    if mime == "image/png"@ {
        ("image"@, "png"@)
    } else if mime == "image/jpeg"@ || mime == "image/jpg"@ {
        ("image"@, "jpg"@)
    } else if mime == "image/gif"@ {
        ("image"@, "gif"@)
    } else if mime == "image/webp"@ {
        ("image"@, "webp"@)
    } else if mime == "image/bmp"@ {
        ("image"@, "bmp"@)
    } else if mime == "image/heic"@ || mime == "image/heif"@ {
        ("image"@, "heic"@)
    } else if mime == "image/avif"@ {
        ("image"@, "avif"@)
    } else {
        ("document"@, "bin"@)
    }
}

/// Attachment kind and extension of a pasted image (see [`image_kind_spec`]).
pub fn clipboard_image_kind_and_ext(mime: &str) -> (r: (&'static str, &'static str))
    ensures
        (r.0@, r.1@) == image_kind_spec(mime@),
{
    if str_eq(mime, "image/png") {
        ("image", "png")
    } else if str_eq(mime, "image/jpeg") || str_eq(mime, "image/jpg") {
        ("image", "jpg")
    } else if str_eq(mime, "image/gif") {
        ("image", "gif")
    } else if str_eq(mime, "image/webp") {
        ("image", "webp")
    } else if str_eq(mime, "image/bmp") {
        ("image", "bmp")
    } else if str_eq(mime, "image/heic") || str_eq(mime, "image/heif") {
        ("image", "heic")
    } else if str_eq(mime, "image/avif") {
        ("image", "avif")
    } else {
        ("document", "bin")
    }
}

/// Clipboard text as the app keeps it: trimmed, and none when blank.
pub open spec fn clipboard_text_spec(raw: Option<Seq<char>>) -> Option<Seq<char>> {
    match raw {
        Some(t) if trim(t).len() > 0 => Some(trim(t)),
        _ => None,
    }
}

/// Clipboard text as the app keeps it (see [`clipboard_text_spec`]).
pub fn normalize_clipboard_text(raw: Option<String>) -> (r: Option<String>)
    ensures
        opt_seq(r) == clipboard_text_spec(opt_seq(raw)),
{
    match raw {
        Some(t) => {
            let cs = chars_of(t.as_str());
            let tr = trim_chars(cs.as_slice());
            if tr.len() > 0 {
                Some(string_of(tr.as_slice()))
            } else {
                None
            }
        },
        None => None,
    }
}

/// The pieces of `s` between `'\n'` characters (at least one piece).
pub open spec fn split_lines(s: Seq<char>) -> Seq<Seq<char>>
    decreases s.len(),
{
    if s.len() == 0 {
        seq![Seq::<char>::empty()]
    } else {
        let r = split_lines(s.drop_last());
        if s.last() == '\n' {
            r.push(Seq::<char>::empty())
        } else {
            r.update(r.len() - 1, r.last().push(s.last()))
        }
    }
}

proof fn lemma_split_lines_nonempty(s: Seq<char>)
    ensures
        split_lines(s).len() >= 1,
    decreases s.len(),
{
    if s.len() > 0 {
        lemma_split_lines_nonempty(s.drop_last());
    }
}

/// `s` without leading `'"'` characters.
pub open spec fn strip_lead_quotes(s: Seq<char>) -> Seq<char>
    decreases s.len(),
{
    if s.len() > 0 && s[0] == '"' {
        strip_lead_quotes(s.drop_first())
    } else {
        s
    }
}

/// `s` without trailing `'"'` characters.
pub open spec fn strip_trail_quotes(s: Seq<char>) -> Seq<char>
    decreases s.len(),
{
    if s.len() > 0 && s.last() == '"' {
        strip_trail_quotes(s.drop_last())
    } else {
        s
    }
}

/// `s` with surrounding `'"'` characters removed (`str::trim_matches('"')`).
pub open spec fn strip_quotes(s: Seq<char>) -> Seq<char> {
    strip_trail_quotes(strip_lead_quotes(s))
}

/// The path a clipboard line names: the line trimmed and unquoted, none
/// when that is empty, with a leading `file://` removed.
pub open spec fn line_candidate(line: Seq<char>) -> Option<Seq<char>> {
    let t = strip_quotes(trim(line));
    if t.len() == 0 {
        None
    } else if starts_with(t, "file://"@) {
        Some(t.skip(7))
    } else {
        Some(t)
    }
}

/// The paths the lines name, in order.
pub open spec fn candidates_of_lines(lines: Seq<Seq<char>>) -> Seq<Seq<char>>
    decreases lines.len(),
{
    if lines.len() == 0 {
        seq![]
    } else {
        let rest = candidates_of_lines(lines.drop_last());
        match line_candidate(lines.last()) {
            Some(p) => rest.push(p),
            None => rest,
        }
    }
}

/// The paths a clipboard text names, one per non-blank line.
pub open spec fn path_candidates_spec(text: Seq<char>) -> Seq<Seq<char>> {
    candidates_of_lines(split_lines(text))
}

proof fn lemma_strip_lead(s: Seq<char>, i: int)
    requires
        0 <= i <= s.len(),
        forall|j: int| 0 <= j < i ==> #[trigger] s[j] == '"',
    ensures
        strip_lead_quotes(s) == strip_lead_quotes(s.subrange(i, s.len() as int)),
    decreases i,
{
    if i == 0 {
        assert(s.subrange(0, s.len() as int) =~= s);
    } else {
        assert(s[0] == '"');
        let t = s.drop_first();
        assert forall|j: int| 0 <= j < i - 1 implies #[trigger] t[j] == '"' by {
            assert(t[j] == s[j + 1]);
        }
        lemma_strip_lead(t, i - 1);
        assert(t.subrange(i - 1, t.len() as int) =~= s.subrange(i, s.len() as int));
    }
}

proof fn lemma_strip_trail(s: Seq<char>, k: int)
    requires
        0 <= k <= s.len(),
        forall|j: int| k <= j < s.len() ==> #[trigger] s[j] == '"',
    ensures
        strip_trail_quotes(s) == strip_trail_quotes(s.subrange(0, k)),
    decreases s.len() - k,
{
    if k == s.len() {
        assert(s.subrange(0, k) =~= s);
    } else {
        assert(s[s.len() - 1] == '"');
        let t = s.drop_last();
        assert forall|j: int| k <= j < t.len() implies #[trigger] t[j] == '"' by {
            assert(t[j] == s[j]);
        }
        lemma_strip_trail(t, k);
        assert(t.subrange(0, k) =~= s.subrange(0, k));
    }
}

fn copy_range(cs: &[char], start: usize, end: usize) -> (out: Vec<char>)
    requires
        start <= end <= cs@.len(),
    ensures
        out@ == cs@.subrange(start as int, end as int),
{
    let mut out: Vec<char> = Vec::new();
    let mut i = start;
    while i < end
        invariant
            start <= i <= end <= cs@.len(),
            out@ == cs@.subrange(start as int, i as int),
        decreases end - i,
    {
        out.push(cs[i]);
        i = i + 1;
        assert(out@ =~= cs@.subrange(start as int, i as int));
    }
    out
}

fn strip_quote_chars(cs: &[char]) -> (out: Vec<char>)
    ensures
        out@ == strip_quotes(cs@),
{
    let n = cs.len();
    let mut start: usize = 0;
    while start < n && cs[start] == '"'
        invariant
            start <= n,
            n == cs@.len(),
            forall|j: int| 0 <= j < start ==> #[trigger] cs@[j] == '"',
        decreases n - start,
    {
        start = start + 1;
    }
    proof {
        lemma_strip_lead(cs@, start as int);
    }
    let ghost rest = cs@.subrange(start as int, n as int);
    assert(strip_lead_quotes(cs@) == rest) by {
        if rest.len() > 0 {
            assert(rest[0] == cs@[start as int]);
        }
    }
    let mut end: usize = n;
    while end > start && cs[end - 1] == '"'
        invariant
            start <= end <= n,
            n == cs@.len(),
            rest == cs@.subrange(start as int, n as int),
            forall|j: int| end - start <= j < rest.len() ==> #[trigger] rest[j] == '"',
        decreases end,
    {
        assert(rest[end - 1 - start] == cs@[end - 1]);
        end = end - 1;
    }
    proof {
        lemma_strip_trail(rest, (end - start) as int);
        let kept = rest.subrange(0, (end - start) as int);
        if kept.len() > 0 {
            assert(kept.last() == cs@[end - 1]);
        }
    }
    assert(rest.subrange(0, (end - start) as int) =~= cs@.subrange(start as int, end as int));
    copy_range(cs, start, end)
}

fn candidate_of_line(line: &[char]) -> (r: Option<String>)
    ensures
        opt_seq(r) == line_candidate(line@),
{
    let t0 = trim_chars(line);
    let t = strip_quote_chars(t0.as_slice());
    if t.len() == 0 {
        return None;
    }
    let prefix = chars_of("file://");
    proof {
        reveal_strlit("file://");
    }
    if chars_starts_with(t.as_slice(), prefix.as_slice()) {
        let rest = copy_range(t.as_slice(), 7, t.len());
        assert(rest@ =~= t@.skip(7));
        Some(string_of(rest.as_slice()))
    } else {
        Some(string_of(t.as_slice()))
    }
}

/// The views of a sequence of strings.
pub open spec fn strs(s: Seq<String>) -> Seq<Seq<char>> {
    s.map_values(|x: String| x@)
}

/// The paths a clipboard text names (see [`path_candidates_spec`]),
/// whether or not they exist.
pub fn clipboard_path_candidates(text: &str) -> (r: Vec<String>)
    ensures
        strs(r@) == path_candidates_spec(text@),
{
    let cs = chars_of(text);
    let mut out: Vec<String> = Vec::new();
    let mut cur: Vec<char> = Vec::new();
    let mut i: usize = 0;
    assert(cs@.take(0) =~= Seq::<char>::empty());
    assert(split_lines(Seq::<char>::empty()).drop_last() =~= Seq::<Seq<char>>::empty());
    assert(strs(out@) =~= Seq::<Seq<char>>::empty());
    while i < cs.len()
        invariant
            i <= cs@.len(),
            split_lines(cs@.take(i as int)).len() >= 1,
            split_lines(cs@.take(i as int)).last() == cur@,
            strs(out@) == candidates_of_lines(split_lines(cs@.take(i as int)).drop_last()),
        decreases cs@.len() - i,
    {
        let ghost before = split_lines(cs@.take(i as int));
        let ghost prev = out@;
        assert(cs@.take(i + 1).drop_last() =~= cs@.take(i as int));
        assert(cs@.take(i + 1).last() == cs@[i as int]);
        let c = cs[i];
        if c == '\n' {
            let cand = candidate_of_line(cur.as_slice());
            match cand {
                Some(p) => {
                    out.push(p);
                },
                None => {},
            }
            proof {
                let after = before.push(Seq::<char>::empty());
                assert(split_lines(cs@.take(i + 1)) == after);
                assert(after.drop_last() =~= before);
                assert(before =~= before.drop_last().push(before.last()));
                assert(candidates_of_lines(before) == match line_candidate(before.last()) {
                    Some(p) => candidates_of_lines(before.drop_last()).push(p),
                    None => candidates_of_lines(before.drop_last()),
                });
                assert(strs(out@) =~= candidates_of_lines(before));
            }
            cur = Vec::new();
        } else {
            cur.push(c);
            proof {
                let after = before.update(before.len() - 1, before.last().push(c));
                assert(split_lines(cs@.take(i + 1)) == after);
                assert(after.drop_last() =~= before.drop_last());
            }
        }
        i = i + 1;
    }
    assert(cs@.take(cs@.len() as int) =~= cs@);
    let ghost all = split_lines(cs@);
    let ghost prev = out@;
    let last = candidate_of_line(cur.as_slice());
    match last {
        Some(p) => {
            out.push(p);
        },
        None => {},
    }
    proof {
        assert(all =~= all.drop_last().push(all.last()));
        assert(candidates_of_lines(all) == match line_candidate(all.last()) {
            Some(p) => candidates_of_lines(all.drop_last()).push(p),
            None => candidates_of_lines(all.drop_last()),
        });
        assert(strs(out@) =~= candidates_of_lines(all));
    }
    out
}

/// The candidates whose flag is set, in order.
pub open spec fn keep_flagged(cands: Seq<Seq<char>>, flags: Seq<bool>) -> Seq<Seq<char>>
    decreases cands.len(),
{
    if cands.len() == 0 || flags.len() == 0 {
        seq![]
    } else {
        let rest = keep_flagged(cands.drop_last(), flags.drop_last());
        if flags.last() {
            rest.push(cands.last())
        } else {
            rest
        }
    }
}

/// The candidates whose flag is set (see [`keep_flagged`]).
pub fn keep_existing(candidates: &[String], exists: &[bool]) -> (r: Vec<String>)
    requires
        candidates@.len() == exists@.len(),
    ensures
        strs(r@) == keep_flagged(strs(candidates@), exists@),
{
    let mut out: Vec<String> = Vec::new();
    let mut i: usize = 0;
    assert(strs(out@) =~= keep_flagged(strs(candidates@).take(0), exists@.take(0)));
    while i < candidates.len()
        invariant
            i <= candidates@.len(),
            candidates@.len() == exists@.len(),
            strs(out@) == keep_flagged(strs(candidates@).take(i as int), exists@.take(i as int)),
        decreases candidates@.len() - i,
    {
        let ghost prev = out@;
        assert(strs(candidates@).take(i + 1).drop_last() =~= strs(candidates@).take(i as int));
        assert(exists@.take(i + 1).drop_last() =~= exists@.take(i as int));
        assert(strs(candidates@).take(i + 1).last() == candidates@[i as int]@);
        if exists[i] {
            out.push(string_from(candidates[i].as_str()));
            assert(strs(out@) =~= strs(prev).push(candidates@[i as int]@));
        } else {
            assert(strs(out@) =~= strs(prev));
        }
        i = i + 1;
    }
    assert(strs(candidates@).take(i as int) =~= strs(candidates@));
    assert(exists@.take(i as int) =~= exists@);
    out
}

/// `std::path::Path::exists`: whether the path names something on disk
/// now. What is on disk is not known here, so nothing is stated of the
/// result.
#[verifier::external_body]
fn path_exists(path: &str) -> bool {
    std::path::Path::new(path).exists()
}

/// `b` is what [`path_exists`] answered when asked about a path spelled
/// `p`.
pub closed spec fn answered_for(p: Seq<char>, b: bool) -> bool {
    exists|q: &str| q@ == p && call_ensures(path_exists, (q,), b)
}

/// `flags` are the file system's answers for `paths`, one for each path at
/// its place.
pub open spec fn flags_answer(paths: Seq<Seq<char>>, flags: Seq<bool>) -> bool {
    &&& flags.len() == paths.len()
    &&& forall|j: int| 0 <= j < paths.len() ==> #[trigger] answered_for(paths[j], flags[j])
}

/// The file system's answer for each path, in order: each flag is what
/// [`path_exists`] returned for the path at its place.
fn existence_flags(paths: &[String]) -> (r: Vec<bool>)
    ensures
        flags_answer(strs(paths@), r@),
{
    let mut flags: Vec<bool> = Vec::new();
    let mut i: usize = 0;
    while i < paths.len()
        invariant
            i <= paths@.len(),
            flags@.len() == i,
            forall|j: int| 0 <= j < i ==> answered_for(paths@[j]@, #[trigger] flags@[j]),
        decreases paths@.len() - i,
    {
        let q = paths[i].as_str();
        let b = path_exists(q);
        assert(call_ensures(path_exists, (q,), b));
        flags.push(b);
        i = i + 1;
    }
    assert forall|j: int| 0 <= j < strs(paths@).len() implies #[trigger] answered_for(strs(paths@)[j], flags@[j]) by {
        assert(strs(paths@)[j] == paths@[j]@);
    }
    flags
}

/// The existing files a clipboard text names: its path candidates, in
/// order, kept where the file system, asked about each candidate, reports
/// it as existing.
pub fn paths_from_clipboard_text(text: &str) -> (r: Vec<String>)
    ensures
        exists|flags: Seq<bool>|
            flags_answer(path_candidates_spec(text@), flags) && strs(r@) == keep_flagged(
                path_candidates_spec(text@),
                flags,
            ),
{
    let cands = clipboard_path_candidates(text);
    let flags = existence_flags(cands.as_slice());
    let r = keep_existing(cands.as_slice(), flags.as_slice());
    assert(strs(cands@).len() == cands@.len());
    r
}

/// The views of an optional path list.
pub open spec fn native_view(paths: Option<Vec<String>>) -> Option<Seq<Seq<char>>> {
    match paths {
        Some(n) => Some(strs(n@)),
        None => None,
    }
}

/// Files of clipboard content given which paths exist: the existing
/// native paths when there are any, else the existing paths the text names.
pub open spec fn content_paths_spec(
    native: Option<Seq<Seq<char>>>,
    native_exists: Seq<bool>,
    text_candidates: Seq<Seq<char>>,
    text_exists: Seq<bool>,
) -> Seq<Seq<char>> {
    match native {
        Some(n) if keep_flagged(n, native_exists).len() > 0 => keep_flagged(n, native_exists),
        _ => keep_flagged(text_candidates, text_exists),
    }
}

/// Files of clipboard content given which paths exist (see
/// [`content_paths_spec`]).
pub fn select_clipboard_paths(
    native: &Option<Vec<String>>,
    native_exists: &[bool],
    text_candidates: &[String],
    text_exists: &[bool],
) -> (r: Vec<String>)
    requires
        native matches Some(n) ==> n@.len() == native_exists@.len(),
        text_candidates@.len() == text_exists@.len(),
    ensures
        strs(r@) == content_paths_spec(
            native_view(*native),
            native_exists@,
            strs(text_candidates@),
            text_exists@,
        ),
{
    if let Some(n) = native {
        let existing = keep_existing(n.as_slice(), native_exists);
        if existing.len() > 0 {
            assert(strs(existing@).len() == existing@.len());
            return existing;
        }
        assert(strs(existing@).len() == existing@.len());
    }
    keep_existing(text_candidates, text_exists)
}

/// Files from clipboard content: the native path list, where the file
/// system reports at least one of its entries as existing; else the files
/// the plain text names (see [`content_paths_spec`]). The answers used are
/// the file system's for each native path and each text candidate.
pub fn paths_from_clipboard_content(paths: &Option<Vec<String>>, plain_text: &str) -> (r: Vec<String>)
    ensures
        exists|nflags: Seq<bool>, tflags: Seq<bool>|
            (paths matches Some(n) ==> flags_answer(strs(n@), nflags)) && flags_answer(
                path_candidates_spec(plain_text@),
                tflags,
            ) && strs(r@) == #[trigger] content_paths_spec(
                native_view(*paths),
                nflags,
                path_candidates_spec(plain_text@),
                tflags,
            ),
{
    let nflags = match paths {
        Some(n) => existence_flags(n.as_slice()),
        None => Vec::new(),
    };
    let cands = clipboard_path_candidates(plain_text);
    let tflags = existence_flags(cands.as_slice());
    assert(strs(cands@).len() == cands@.len());
    let r = select_clipboard_paths(paths, nflags.as_slice(), cands.as_slice(), tflags.as_slice());
    let ghost w = content_paths_spec(
        native_view(*paths),
        nflags@,
        path_candidates_spec(plain_text@),
        tflags@,
    );
    r
}

/// Files named by the clipboard text the app read, if any (see
/// [`paths_from_clipboard_text`]); none without clipboard text.
pub fn read_clipboard_existing_paths(text: Option<String>) -> (r: Vec<String>)
    ensures
        text is None ==> r@.len() == 0,
        text is Some ==> exists|flags: Seq<bool>|
            flags_answer(path_candidates_spec(text->0@), flags) && strs(r@) == keep_flagged(
                path_candidates_spec(text->0@),
                flags,
            ),
{
    match text {
        Some(t) => paths_from_clipboard_text(t.as_str()),
        None => Vec::new(),
    }
}

/// The URI list put on the clipboard for copied files: `file://` before
/// each absolute path, one per line.
pub open spec fn uri_list_spec(paths: Seq<Seq<char>>) -> Seq<char>
    decreases paths.len(),
{
    if paths.len() == 0 {
        seq![]
    } else if paths.len() == 1 {
        "file://"@ + paths[0]
    } else {
        uri_list_spec(paths.drop_last()) + "\n"@ + "file://"@ + paths.last()
    }
}

/// The URI list for copied files (see [`uri_list_spec`]).
pub fn file_uri_list(absolute_paths: &[String]) -> (r: String)
    ensures
        r@ == uri_list_spec(strs(absolute_paths@)),
{
    let mut out = String::new();
    let mut i: usize = 0;
    assert(strs(absolute_paths@).take(0) =~= Seq::<Seq<char>>::empty());
    while i < absolute_paths.len()
        invariant
            i <= absolute_paths@.len(),
            out@ == uri_list_spec(strs(absolute_paths@).take(i as int)),
        decreases absolute_paths@.len() - i,
    {
        let ghost t = strs(absolute_paths@).take(i + 1);
        assert(t.drop_last() =~= strs(absolute_paths@).take(i as int));
        assert(t.last() == absolute_paths@[i as int]@);
        if i > 0 {
            push_str(&mut out, "\n");
        } else {
            assert(t.len() == 1 && t[0] == absolute_paths@[0]@);
        }
        push_str(&mut out, "file://");
        push_str(&mut out, absolute_paths[i].as_str());
        i = i + 1;
    }
    assert(strs(absolute_paths@).take(i as int) =~= strs(absolute_paths@));
    out
}

/// The message when there is nothing to copy.
pub open spec fn no_files_message() -> Seq<char> {
    "没有可复制的文件"@
}

/// The message for a file that does not exist.
pub open spec fn missing_file_message(path: Seq<char>) -> Seq<char> {
    "文件不存在: "@ + path
}

/// Flags that are not set.
pub open spec fn unset(flags: Seq<bool>) -> spec_fn(int) -> bool {
    |i: int| !flags[i]
}

/// The index of the first unset flag, or `-1`.
pub open spec fn first_unset(flags: Seq<bool>) -> int {
    first_where(flags.len(), unset(flags))
}

/// What copying files leads to: an error when the list is empty, else
/// an error naming the first file that does not exist, else the URI list
/// of the absolute paths.
pub open spec fn copy_files_spec(
    paths: Seq<Seq<char>>,
    exists: Seq<bool>,
    absolute: Seq<Seq<char>>,
) -> Result<Seq<char>, Seq<char>> {
    if paths.len() == 0 {
        Err(no_files_message())
    } else if first_unset(exists) >= 0 {
        Err(missing_file_message(paths[first_unset(exists)]))
    } else {
        Ok(uri_list_spec(absolute))
    }
}

/// The result of a copy of files (see [`copy_files_spec`]), given whether
/// each file exists and its absolute path.
pub fn clipboard_files_text(paths: &[String], exists: &[bool], absolute: &[String]) -> (r: Result<
    String,
    String,
>)
    requires
        exists@.len() == paths@.len(),
    ensures
        match (r, copy_files_spec(strs(paths@), exists@, strs(absolute@))) {
            (Ok(t), Ok(s)) => t@ == s,
            (Err(e), Err(s)) => e@ == s,
            _ => false,
        },
{
    if paths.len() == 0 {
        return Err(string_from("没有可复制的文件"));
    }
    let mut i: usize = 0;
    let ghost p = unset(exists@);
    while i < exists.len()
        invariant
            i <= exists@.len(),
            exists@.len() == paths@.len(),
            p == unset(exists@),
            forall|j: int| 0 <= j < i ==> !#[trigger] p(j),
        decreases exists@.len() - i,
    {
        if !exists[i] {
            proof {
                lemma_first_where_found(exists@.len(), p, i as int);
            }
            let mut msg = string_from("文件不存在: ");
            push_str(&mut msg, paths[i].as_str());
            return Err(msg);
        }
        i = i + 1;
    }
    proof {
        lemma_first_where_none(exists@.len(), p);
    }
    Ok(file_uri_list(absolute))
}

/// `std::path::Path::canonicalize`, shown with `Path::display`: the
/// absolute form of a path as the file system resolves it now, or none
/// when it cannot. What is on disk is not known here, so nothing is stated
/// of it.
#[verifier::external_body]
fn canonical_path(path: &str) -> Option<String> {
    match std::path::Path::new(path).canonicalize() {
        Ok(p) => Some(p.display().to_string()),
        Err(_) => None,
    }
}

/// `a` is the absolute form given for a path spelled `p`: what
/// [`canonical_path`] answered when asked about it, or `p` itself when it
/// answered none.
pub closed spec fn resolved_for(p: Seq<char>, a: Seq<char>) -> bool {
    exists|q: &str, o: Option<String>|
        q@ == p && call_ensures(canonical_path, (q,), o) && match o {
            Some(t) => t@ == a,
            None => a == p,
        }
}

/// `abs` holds the absolute form given for each of `paths`, at its place.
pub open spec fn all_resolved(paths: Seq<Seq<char>>, abs: Seq<Seq<char>>) -> bool {
    &&& abs.len() == paths.len()
    &&& forall|j: int| 0 <= j < paths.len() ==> #[trigger] resolved_for(paths[j], abs[j])
}

/// Checks the files to copy and gives the `file://` URI list that goes
/// on the clipboard (see [`copy_files_spec`]): an empty list fails, a file
/// the file system reports as missing fails naming the first such file,
/// and otherwise the list holds one URI per file, made of the absolute form
/// the file system gave for it.
pub fn write_clipboard_files(paths: &[String]) -> (r: Result<String, String>)
    ensures
        paths@.len() == 0 ==> (r matches Err(e) && e@ == no_files_message()),
        exists|flags: Seq<bool>, abs: Seq<Seq<char>>|
            flags_answer(strs(paths@), flags) && all_resolved(strs(paths@), abs) && match (
                r,
                #[trigger] copy_files_spec(strs(paths@), flags, abs),
            ) {
                (Ok(t), Ok(s)) => t@ == s,
                (Err(e), Err(s)) => e@ == s,
                _ => false,
            },
{
    let flags = existence_flags(paths);
    let mut absolute: Vec<String> = Vec::new();
    let mut i: usize = 0;
    while i < paths.len()
        invariant
            i <= paths@.len(),
            absolute@.len() == i,
            forall|j: int| 0 <= j < i ==> #[trigger] resolved_for(paths@[j]@, absolute@[j]@),
        decreases paths@.len() - i,
    {
        let q = paths[i].as_str();
        let o = canonical_path(q);
        assert(call_ensures(canonical_path, (q,), o));
        let abs = match o {
            Some(p) => p,
            None => string_from(q),
        };
        assert(resolved_for(paths@[i as int]@, abs@));
        absolute.push(abs);
        i = i + 1;
    }
    assert forall|j: int| 0 <= j < strs(paths@).len() implies #[trigger] resolved_for(
        strs(paths@)[j],
        strs(absolute@)[j],
    ) by {
        assert(strs(paths@)[j] == paths@[j]@);
        assert(strs(absolute@)[j] == absolute@[j]@);
    }
    let r = clipboard_files_text(paths, flags.as_slice(), absolute.as_slice());
    assert(strs(absolute@).len() == paths@.len());
    let ghost s = copy_files_spec(strs(paths@), flags@, strs(absolute@));
    r
}

/// The PNG file that the `image` crate writes for an RGBA image of the
/// given size and pixels, or none when the pixels do not make such an image
/// or the encoder fails.
pub uninterp spec fn rgba_png(width: u32, height: u32, rgba: Seq<u8>) -> Option<Seq<u8>>;

/// `image::RgbaImage::from_raw` then `DynamicImage::write_to` with
/// `ImageFormat::Png` into memory: the PNG bytes of the image, none when the
/// buffer does not fit the size or encoding fails. The bytes are named, not
/// stated.
#[verifier::external_body]
fn encode_rgba_png(width: u32, height: u32, rgba: Vec<u8>) -> (r: Option<Vec<u8>>)
    requires
        rgba@.len() == width * height * 4,
    ensures
        match r {
            Some(v) => rgba_png(width, height, rgba@) == Some(v@),
            None => rgba_png(width, height, rgba@) is None,
        },
{
    let buffer = image::RgbaImage::from_raw(width, height, rgba)?;
    let mut png = Vec::new();
    image::DynamicImage::ImageRgba8(buffer)
        .write_to(&mut std::io::Cursor::new(&mut png), image::ImageFormat::Png)
        .ok()?;
    Some(png)
}

/// Whether `rgba` holds exactly four bytes for each of `width` by `height`
/// pixels, with both sides positive and within `u32`.
pub open spec fn image_shape_ok(width: usize, height: usize, rgba_len: nat) -> bool {
    &&& 0 < width <= u32::MAX
    &&& 0 < height <= u32::MAX
    &&& rgba_len == width * height * 4
}

/// The PNG attachment made of a clipboard image of `width` by `height`
/// RGBA pixels: none for an empty size, one beyond `u32`, or pixels that
/// are not four bytes each; otherwise the PNG, none when encoding fails or
/// the PNG comes out empty.
pub fn clipboard_image_png(width: usize, height: usize, rgba: Vec<u8>) -> (r: Option<Vec<u8>>)
    ensures
        !image_shape_ok(width, height, rgba@.len()) ==> r is None,
        image_shape_ok(width, height, rgba@.len()) ==> match r {
            Some(v) => v@.len() > 0 && rgba_png(width as u32, height as u32, rgba@) == Some(v@),
            None => rgba_png(width as u32, height as u32, rgba@) is None || rgba_png(
                width as u32,
                height as u32,
                rgba@,
            ) == Some(Seq::<u8>::empty()),
        },
{
    if width == 0 || height == 0 {
        return None;
    }
    if width as u64 > u32::MAX as u64 || height as u64 > u32::MAX as u64 {
        return None;
    }
    let w: u64 = width as u64;
    let h: u64 = height as u64;
    assert(w * h <= 0xffff_ffff * 0xffff_ffff) by (nonlinear_arith)
        requires
            w <= 0xffff_ffff,
            h <= 0xffff_ffff,
    ;
    let pixels: u64 = w * h;
    assert(pixels == width * height);
    let n: usize = rgba.len();
    if pixels > u64::MAX / 4 {
        assert(n as int <= u64::MAX);
        assert(width * height * 4 > u64::MAX);
        return None;
    }
    let expected: u64 = pixels * 4;
    assert(expected == width * height * 4);
    if n as u64 != expected {
        return None;
    }
    let ghost px = rgba@;
    match encode_rgba_png(width as u32, height as u32, rgba) {
        Some(png) => {
            if png.len() == 0 {
                assert(png@ =~= Seq::<u8>::empty());
                None
            } else {
                Some(png)
            }
        },
        None => None,
    }
}

} // verus!
