//! Which workspace app opens a shared file: tool ids, capabilities and
//! catalog filtering, and the type label of share entries.

use vstd::prelude::*;
use crate::find::{first_where, lemma_first_where_found, lemma_first_where_none};
use crate::text::{
    ascii_lower, chars_eq, chars_eq_ignore_ascii_case, chars_of, eq_ignore_ascii_case, lower_ascii,
    string_from, string_of, trim, trim_str, opt_seq, str_eq,
};
use crate::share_listing::ShareEntry;
use crate::cluster::ClusterStatus;

verus! {

/// How a tool is executed.
#[derive(Debug, Clone, Copy, PartialEq, Eq, Structural)]
pub enum ToolExecutorKind {
    /// Runs from an installed source runtime on the host.
    SourceRuntime,
    /// Any other executor.
    Other,
}

/// A catalog tool.
#[derive(Debug)]
pub struct ToolDescriptor {
    pub id: String,
    pub name: String,
    pub description: String,
    pub executor: ToolExecutorKind,
    pub extensions: Vec<String>,
}

/// A catalog entry.
#[derive(Debug)]
pub struct ToolSummary {
    pub descriptor: ToolDescriptor,
}

/// How a worker image runs apps.
#[derive(Debug, Clone, Copy, PartialEq, Eq, Structural)]
pub enum WorkspaceExecutionMode {
    HostNative,
    VmGuest,
}

/// An image a workspace worker offers.
#[derive(Debug)]
pub struct WorkerImage {
    pub installed_apps: Vec<String>,
    pub execution_mode: WorkspaceExecutionMode,
}

/// A workspace worker (a device that can open files in apps).
#[derive(Debug)]
pub struct WorkspaceWorker {
    pub node_id: String,
    pub hostname: String,
    pub dispatch_endpoint_id: Option<String>,
    /// The worker is online and takes sessions.
    pub available: bool,
    /// Its virtual machine is ready.
    pub vm_ready: bool,
    pub images: Vec<WorkerImage>,
}

/// Index of the last `'.'` in `s`, or -1.
pub open spec fn last_dot(s: Seq<char>) -> int
    decreases s.len(),
{
    if s.len() == 0 {
        -1
    } else if s.last() == '.' {
        s.len() - 1
    } else {
        last_dot(s.drop_last())
    }
}

/// Lower-case text after the last `'.'` of a file name; empty without a dot.
pub open spec fn extension_of(name: Seq<char>) -> Seq<char> {
    let i = last_dot(name);
    if i >= 0 {
        ascii_lower(name.skip(i + 1))
    } else {
        seq![]
    }
}

proof fn lemma_last_dot(s: Seq<char>)
    ensures
        -1 <= last_dot(s) < s.len(),
        last_dot(s) >= 0 ==> s[last_dot(s)] == '.',
        forall|j: int| last_dot(s) < j < s.len() ==> s[j] != '.',
    decreases s.len(),
{
    if s.len() > 0 {
        let t = s.drop_last();
        lemma_last_dot(t);
        assert forall|j: int| 0 <= j < t.len() implies t[j] == s[j] by {}
    }
}

fn last_dot_exec(cs: &[char]) -> (r: Option<usize>)
    ensures
        match r {
            Some(i) => i < cs@.len() && i as int == last_dot(cs@),
            None => last_dot(cs@) == -1,
        },
{
    let mut k = cs.len();
    assert(cs@.take(k as int) =~= cs@);
    while k > 0
        invariant
            k <= cs@.len(),
            last_dot(cs@) == last_dot(cs@.take(k as int)),
        decreases k,
    {
        let ghost t = cs@.take(k as int);
        assert(t.last() == cs@[k - 1]);
        if cs[k - 1] == '.' {
            return Some(k - 1);
        }
        assert(t.drop_last() =~= cs@.take(k - 1));
        k = k - 1;
    }
    None
}

fn extension_chars(name: &str) -> (r: Vec<char>)
    ensures
        r@ == extension_of(name@),
{
    let cs = chars_of(name);
    let n = cs.len();
    match last_dot_exec(cs.as_slice()) {
        Some(i) => {
            assert(i < n);
            let mut tail: Vec<char> = Vec::new();
            let mut k = i + 1;
            while k < cs.len()
                invariant
                    i + 1 <= k <= cs@.len(),
                    tail@ == cs@.subrange(i + 1, k as int),
                decreases cs@.len() - k,
            {
                tail.push(cs[k]);
                k = k + 1;
                assert(tail@ =~= cs@.subrange(i + 1, k as int));
            }
            assert(cs@.subrange(i + 1, cs@.len() as int) =~= cs@.skip(i + 1));
            lower_ascii(tail.as_slice())
        },
        None => {
            let r: Vec<char> = Vec::new();
            assert(r@ =~= extension_of(name@));
            r
        },
    }
}

/// The lower-case extension of a file name (see [`extension_of`]).
pub fn workspace_file_extension(name: &str) -> (r: String)
    ensures
        r@ == extension_of(name@),
{
    let e = extension_chars(name);
    string_of(e.as_slice())
}

/// Canonical tool id: trimmed, ASCII lower case, with `onlyoffice` served
/// by `libreoffice`.
pub open spec fn canonical_id(id: Seq<char>) -> Seq<char> {
    let t = ascii_lower(trim(id));
    if t == "onlyoffice"@ {
        "libreoffice"@
    } else {
        t
    }
}

fn canonical_chars(id: &str) -> (r: Vec<char>)
    ensures
        r@ == canonical_id(id@),
{
    let t = trim_str(id);
    let l = lower_ascii(t.as_slice());
    let only = chars_of("onlyoffice");
    if chars_eq(l.as_slice(), only.as_slice()) {
        chars_of("libreoffice")
    } else {
        l
    }
}

/// The canonical id of a tool (see [`canonical_id`]).
pub fn workspace_canonical_tool_id(id: &str) -> (r: String)
    ensures
        r@ == canonical_id(id@),
{
    let c = canonical_chars(id);
    string_of(c.as_slice())
}

/// Office apps, which can stand in for one another.
pub open spec fn office_spec(app: Seq<char>) -> bool {
    let c = canonical_id(app);
    c == "libreoffice"@ || c == "word"@ || c == "excel"@ || c == "powerpoint"@
}

fn is_one_of(c: &[char], names: &Vec<Vec<char>>) -> (r: bool)
    ensures
        r == exists|i: int| 0 <= i < names@.len() && names@[i]@ == c@,
{
    let mut i: usize = 0;
    while i < names.len()
        invariant
            i <= names@.len(),
            forall|j: int| 0 <= j < i ==> names@[j]@ != c@,
        decreases names@.len() - i,
    {
        if chars_eq(names[i].as_slice(), c) {
            return true;
        }
        i = i + 1;
    }
    false
}

fn office_chars(c: &[char]) -> (r: bool)
    ensures
        r == (c@ == "libreoffice"@ || c@ == "word"@ || c@ == "excel"@ || c@ == "powerpoint"@),
{
    let names = vec![chars_of("libreoffice"), chars_of("word"), chars_of("excel"), chars_of("powerpoint")];
    let r = is_one_of(c, &names);
    proof {
        if c@ == "libreoffice"@ {
            assert(names@[0]@ == c@);
        } else if c@ == "word"@ {
            assert(names@[1]@ == c@);
        } else if c@ == "excel"@ {
            assert(names@[2]@ == c@);
        } else if c@ == "powerpoint"@ {
            assert(names@[3]@ == c@);
        }
    }
    r
}

/// Whether the app is an office app (see [`office_spec`]).
pub fn workspace_office_capability(app: &str) -> (r: bool)
    ensures
        r == office_spec(app@),
{
    let c = canonical_chars(app);
    office_chars(c.as_slice())
}

/// A declared capability serves a requested app: `default` serves all,
/// equal canonical ids match, and office apps match each other.
pub open spec fn capability_matches(declared: Seq<char>, requested: Seq<char>) -> bool {
    let d = canonical_id(declared);
    let r = canonical_id(requested);
    d == "default"@ || d == r || (office_spec(d) && office_spec(r))
}

/// Whether a declared capability serves a requested app (see [`capability_matches`]).
pub fn workspace_capability_matches(declared: &str, requested: &str) -> (r: bool)
    ensures
        r == capability_matches(declared@, requested@),
{
    let d = workspace_canonical_tool_id(declared);
    let r = workspace_canonical_tool_id(requested);
    let dc = chars_of(d.as_str());
    let rc = chars_of(r.as_str());
    let def = chars_of("default");
    if chars_eq(dc.as_slice(), def.as_slice()) || chars_eq(dc.as_slice(), rc.as_slice()) {
        return true;
    }
    workspace_office_capability(d.as_str()) && workspace_office_capability(r.as_str())
}

/// A tool opens a file: the file has an extension and the tool lists it
/// (ignoring ASCII case).
pub open spec fn tool_supports(tool: ToolSummary, file_name: Seq<char>) -> bool {
    let e = extension_of(file_name);
    e.len() > 0 && exists|i: int|
        0 <= i < tool.descriptor.extensions@.len() && eq_ignore_ascii_case(
            (#[trigger] tool.descriptor.extensions@[i])@,
            e,
        )
}

/// Whether a tool opens a file (see [`tool_supports`]).
pub fn workspace_tool_supports_file(tool: &ToolSummary, file_name: &str) -> (r: bool)
    ensures
        r == tool_supports(*tool, file_name@),
{
    let e = extension_chars(file_name);
    if e.len() == 0 {
        return false;
    }
    let exts = &tool.descriptor.extensions;
    let mut i: usize = 0;
    while i < exts.len()
        invariant
            i <= exts@.len(),
            exts@ == tool.descriptor.extensions@,
            e@.len() > 0,
            e@ == extension_of(file_name@),
            forall|j: int| 0 <= j < i ==> !eq_ignore_ascii_case((#[trigger] exts@[j])@, e@),
        decreases exts@.len() - i,
    {
        let c = chars_of(exts[i].as_str());
        assert(c@ == exts@[i as int]@);
        if chars_eq_ignore_ascii_case(c.as_slice(), e.as_slice()) {
            assert(eq_ignore_ascii_case(tool.descriptor.extensions@[i as int]@, e@));
            return true;
        }
        i = i + 1;
    }
    false
}

/// The value of a tool as `(id, name, description, executor, extensions)`.
pub open spec fn tool_view(t: ToolSummary) -> (Seq<char>, Seq<char>, Seq<char>, ToolExecutorKind, Seq<
    Seq<char>,
>) {
    (
        t.descriptor.id@,
        t.descriptor.name@,
        t.descriptor.description@,
        t.descriptor.executor,
        t.descriptor.extensions@.map_values(|s: String| s@),
    )
}

/// The catalog entry shown for an `onlyoffice` tool: renamed to LibreOffice
/// with the host-native documents hint.
pub open spec fn renamed_tool(
    v: (Seq<char>, Seq<char>, Seq<char>, ToolExecutorKind, Seq<Seq<char>>),
    hint: Seq<char>,
) -> (Seq<char>, Seq<char>, Seq<char>, ToolExecutorKind, Seq<Seq<char>>) {
    if eq_ignore_ascii_case(v.0, "onlyoffice"@) {
        ("libreoffice"@, "LibreOffice"@, hint, v.3, v.4)
    } else {
        v
    }
}

/// Source-runtime tools of the catalog, one per canonical id (the first
/// wins), `onlyoffice` shown as LibreOffice.
pub open spec fn runtime_tools(
    tools: Seq<(Seq<char>, Seq<char>, Seq<char>, ToolExecutorKind, Seq<Seq<char>>)>,
    hint: Seq<char>,
) -> Seq<(Seq<char>, Seq<char>, Seq<char>, ToolExecutorKind, Seq<Seq<char>>)>
    decreases tools.len(),
{
    if tools.len() == 0 {
        seq![]
    } else {
        let prev = runtime_tools(tools.drop_last(), hint);
        let t = tools.last();
        if t.3 != ToolExecutorKind::SourceRuntime {
            prev
        } else if exists|i: int|
            0 <= i < prev.len() && canonical_id((#[trigger] prev[i]).0) == canonical_id(t.0) {
            prev
        } else {
            prev.push(renamed_tool(t, hint))
        }
    }
}

/// The values of a list of tools.
pub open spec fn tools_view(s: Seq<ToolSummary>) -> Seq<
    (Seq<char>, Seq<char>, Seq<char>, ToolExecutorKind, Seq<Seq<char>>),
> {
    s.map_values(|t: ToolSummary| tool_view(t))
}

/// Source-runtime tools of the catalog (see [`runtime_tools`]);
/// `host_native_docs_hint` is the description given to the LibreOffice entry.
pub fn workspace_source_runtime_tools_from_catalog(
    tools: Vec<ToolSummary>,
    host_native_docs_hint: &str,
) -> (r: Vec<ToolSummary>)
    ensures
        tools_view(r@) == runtime_tools(tools_view(tools@), host_native_docs_hint@),
{
    let ghost all = tools_view(tools@);
    let mut out: Vec<ToolSummary> = Vec::new();
    let mut canon: Vec<Vec<char>> = Vec::new();
    let mut rest = tools;
    let mut rev: Vec<ToolSummary> = Vec::new();
    while rest.len() > 0
        invariant
            tools_view(rest@) + tools_view(rev@).reverse() == all,
        decreases rest@.len(),
    {
        let ghost br = tools_view(rest@);
        let ghost bv = tools_view(rev@);
        let t = rest.pop().unwrap();
        rev.push(t);
        proof {
            assert(tools_view(rest@) =~= br.drop_last());
            assert(tools_view(rev@) =~= bv.push(br.last()));
            assert(tools_view(rev@).reverse() =~= seq![br.last()] + bv.reverse());
            assert(br =~= br.drop_last().push(br.last()));
            assert(tools_view(rest@) + tools_view(rev@).reverse() =~= br + bv.reverse());
        }
    }
    assert(tools_view(rev@).reverse() =~= all);
    let ghost n = all.len();
    while rev.len() > 0
        invariant
            rev@.len() <= n,
            n == all.len(),
            tools_view(rev@).reverse() == all.skip(n - rev@.len()),
            tools_view(out@) == runtime_tools(all.take(n - rev@.len()), host_native_docs_hint@),
            canon@.len() == out@.len(),
            forall|j: int|
                0 <= j < out@.len() ==> (#[trigger] canon@[j])@ == canonical_id(
                    tools_view(out@)[j].0,
                ),
        decreases rev@.len(),
    {
        let ghost br = tools_view(rev@);
        let ghost i = n - rev@.len();
        let mut t = rev.pop().unwrap();
        proof {
            assert(br.reverse()[0] == br.last());
            assert(all.skip(i)[0] == all[i]);
            assert(tool_view(t) == all[i]);
            assert(tools_view(rev@) =~= br.drop_last());
            assert(br.drop_last().reverse() =~= br.reverse().skip(1));
            assert(all.skip(i).skip(1) =~= all.skip(i + 1));
            assert(all.take(i + 1).drop_last() =~= all.take(i));
            assert(all.take(i + 1).last() == all[i]);
        }
        if t.descriptor.executor == ToolExecutorKind::SourceRuntime {
            let c = canonical_chars(t.descriptor.id.as_str());
            let ghost prev = tools_view(out@);
            let mut dup = false;
            let mut k: usize = 0;
            while k < canon.len()
                invariant
                    k <= canon@.len(),
                    canon@.len() == out@.len(),
                    prev == tools_view(out@),
                    forall|j: int|
                        0 <= j < out@.len() ==> (#[trigger] canon@[j])@ == canonical_id(prev[j].0),
                    !dup ==> forall|j: int| 0 <= j < k ==> canonical_id(prev[j].0) != c@,
                    dup ==> exists|j: int| 0 <= j < prev.len() && canonical_id(prev[j].0) == c@,
                decreases canon@.len() - k,
            {
                if !dup && chars_eq(canon[k].as_slice(), c.as_slice()) {
                    dup = true;
                    assert(canonical_id(prev[k as int].0) == c@);
                }
                k = k + 1;
            }
            if !dup {
                let only = chars_of("onlyoffice");
                let idc = chars_of(t.descriptor.id.as_str());
                if chars_eq_ignore_ascii_case(idc.as_slice(), only.as_slice()) {
                    t.descriptor.id = string_from("libreoffice");
                    t.descriptor.name = string_from("LibreOffice");
                    t.descriptor.description = string_from(host_native_docs_hint);
                }
                let ghost tv = tool_view(t);
                out.push(t);
                canon.push(c);
                proof {
                    assert(tv == renamed_tool(all[i], host_native_docs_hint@));
                    assert(tools_view(out@) =~= prev.push(tv));
                    if eq_ignore_ascii_case(all[i].0, "onlyoffice"@) {
                        assert(canonical_id("libreoffice"@) == canonical_id(all[i].0)) by {
                            lemma_canonical_onlyoffice(all[i].0);
                        }
                    }
                    assert forall|j: int| 0 <= j < out@.len() implies (#[trigger] canon@[j])@
                        == canonical_id(tools_view(out@)[j].0) by {
                        if j < prev.len() {
                            assert(tools_view(out@)[j] == prev[j]);
                        }
                    }
                }
            }
        }
    }
    assert(all.take(n as int) =~= all);
    out
}

proof fn lemma_canonical_onlyoffice(id: Seq<char>)
    requires
        eq_ignore_ascii_case(id, "onlyoffice"@),
    ensures
        canonical_id("libreoffice"@) == canonical_id(id),
{
    reveal_strlit("onlyoffice");
    reveal_strlit("libreoffice");
    let l = "libreoffice"@;
    assert(trim(l) == l) by {
        assert(!crate::text::is_ws(l[0]));
        assert(!crate::text::is_ws(l.last()));
    }
    assert(ascii_lower(l) =~= l);
    assert(ascii_lower("onlyoffice"@) =~= "onlyoffice"@);
    assert(ascii_lower(id) == "onlyoffice"@);
    assert(id.len() == 10);
    assert(trim(id) == id) by {
        assert(ascii_lower(id)[0] == 'o');
        assert(!crate::text::is_ws(id[0]));
        assert(ascii_lower(id)[9] == 'e');
        assert(!crate::text::is_ws(id.last()));
    }
}

/// An image offers the app: for `default`, any installed app; otherwise an
/// installed app whose capability matches.
pub open spec fn image_offers(image: WorkerImage, app: Seq<char>) -> bool {
    if app == "default"@ {
        image.installed_apps@.len() > 0
    } else {
        exists|i: int|
            0 <= i < image.installed_apps@.len() && capability_matches(
                (#[trigger] image.installed_apps@[i])@,
                app,
            )
    }
}

/// Index of the first image offering the app, or -1.
pub open spec fn offering_index(images: Seq<WorkerImage>, app: Seq<char>) -> int
    decreases images.len(),
{
    if images.len() == 0 {
        -1
    } else {
        let i = offering_index(images.drop_last(), app);
        if i >= 0 {
            i
        } else if image_offers(images.last(), app) {
            images.len() - 1
        } else {
            -1
        }
    }
}

proof fn lemma_offering_index(images: Seq<WorkerImage>, app: Seq<char>)
    ensures
        -1 <= offering_index(images, app) < images.len(),
        offering_index(images, app) >= 0 ==> image_offers(images[offering_index(images, app)], app),
        forall|j: int|
            0 <= j < images.len() && (offering_index(images, app) < 0 || j < offering_index(
                images,
                app,
            )) ==> !image_offers(#[trigger] images[j], app),
    decreases images.len(),
{
    if images.len() > 0 {
        let t = images.drop_last();
        lemma_offering_index(t, app);
        assert forall|j: int| 0 <= j < t.len() implies t[j] == images[j] by {}
    }
}

fn image_offers_exec(image: &WorkerImage, app: &str) -> (r: bool)
    ensures
        r == image_offers(*image, app@),
{
    if crate::text::str_eq(app, "default") {
        return image.installed_apps.len() > 0;
    }
    let mut i: usize = 0;
    while i < image.installed_apps.len()
        invariant
            i <= image.installed_apps@.len(),
            forall|j: int|
                0 <= j < i ==> !capability_matches((#[trigger] image.installed_apps@[j])@, app@),
        decreases image.installed_apps@.len() - i,
    {
        if workspace_capability_matches(image.installed_apps[i].as_str(), app) {
            return true;
        }
        i = i + 1;
    }
    false
}

fn offering_image(worker: &WorkspaceWorker, app: &str) -> (r: Option<usize>)
    ensures
        match r {
            Some(i) => i < worker.images@.len() && i as int == offering_index(
                worker.images@,
                canonical_id(app@),
            ),
            None => offering_index(worker.images@, canonical_id(app@)) == -1,
        },
{
    let canon = workspace_canonical_tool_id(app);
    let ghost a = canon@;
    proof {
        lemma_offering_index(worker.images@, a);
    }
    let mut i: usize = 0;
    while i < worker.images.len()
        invariant
            i <= worker.images@.len(),
            a == canonical_id(app@),
            a == canon@,
            forall|j: int| 0 <= j < i ==> !image_offers(#[trigger] worker.images@[j], a),
            -1 <= offering_index(worker.images@, a) < worker.images@.len(),
            offering_index(worker.images@, a) >= 0 ==> image_offers(
                worker.images@[offering_index(worker.images@, a)],
                a,
            ),
            forall|j: int|
                0 <= j < worker.images@.len() && (offering_index(worker.images@, a) < 0 || j
                    < offering_index(worker.images@, a)) ==> !image_offers(
                    #[trigger] worker.images@[j],
                    a,
                ),
        decreases worker.images@.len() - i,
    {
        if image_offers_exec(&worker.images[i], canon.as_str()) {
            return Some(i);
        }
        i = i + 1;
    }
    None
}

/// Whether some image of the worker offers the app (by its canonical id).
pub fn workspace_worker_supports_app(worker: &WorkspaceWorker, app: &str) -> (r: bool)
    ensures
        r == (offering_index(worker.images@, canonical_id(app@)) >= 0),
{
    offering_image(worker, app).is_some()
}

/// Execution mode of the first image of the worker offering the app.
pub fn workspace_worker_execution_mode_for_app(worker: &WorkspaceWorker, app: &str) -> (r: Option<
    WorkspaceExecutionMode,
>)
    ensures
        r == (if offering_index(worker.images@, canonical_id(app@)) >= 0 {
            Some(worker.images@[offering_index(worker.images@, canonical_id(app@))].execution_mode)
        } else {
            None
        }),
{
    match offering_image(worker, app) {
        Some(i) => Some(worker.images[i].execution_mode),
        None => None,
    }
}

/// Type label of a share entry.
#[derive(Debug, Clone, Copy, PartialEq, Eq, Structural)]
pub enum ShareTypeLabel {
    Folder,
    Text,
    Markdown,
    Json,
    Pdf,
    Toml,
    Rust,
    Swift,
    File,
}

/// Lower-case text after the last `'.'`, or the whole name without a dot
/// (`rsplit('.').next()`).
pub open spec fn last_segment(name: Seq<char>) -> Seq<char> {
    let i = last_dot(name);
    ascii_lower(if i >= 0 {
        name.skip(i + 1)
    } else {
        name
    })
}

/// Type label of a share entry: folders by kind, files by the text after
/// their last dot.
pub open spec fn type_label_spec(kind: Seq<char>, name: Seq<char>) -> ShareTypeLabel {
    let e = last_segment(name);
    if eq_ignore_ascii_case(kind, "folder"@) {
        ShareTypeLabel::Folder
    } else if e == "txt"@ {
        ShareTypeLabel::Text
    } else if e == "md"@ {
        ShareTypeLabel::Markdown
    } else if e == "json"@ {
        ShareTypeLabel::Json
    } else if e == "pdf"@ {
        ShareTypeLabel::Pdf
    } else if e == "toml"@ {
        ShareTypeLabel::Toml
    } else if e == "rs"@ {
        ShareTypeLabel::Rust
    } else if e == "swift"@ {
        ShareTypeLabel::Swift
    } else {
        ShareTypeLabel::File
    }
}

/// Type label of a share entry (see [`type_label_spec`]).
pub fn share_type_label(kind: &str, name: &str) -> (r: ShareTypeLabel)
    ensures
        r == type_label_spec(kind@, name@),
{
    let k = chars_of(kind);
    let folder = chars_of("folder");
    if chars_eq_ignore_ascii_case(k.as_slice(), folder.as_slice()) {
        return ShareTypeLabel::Folder;
    }
    let cs = chars_of(name);
    let n = cs.len();
    let seg: Vec<char> = match last_dot_exec(cs.as_slice()) {
        Some(i) => {
            let mut tail: Vec<char> = Vec::new();
            let mut j = i + 1;
            while j < cs.len()
                invariant
                    i + 1 <= j <= cs@.len(),
                    tail@ == cs@.subrange(i + 1, j as int),
                decreases cs@.len() - j,
            {
                tail.push(cs[j]);
                j = j + 1;
                assert(tail@ =~= cs@.subrange(i + 1, j as int));
            }
            assert(cs@.subrange(i + 1, cs@.len() as int) =~= cs@.skip(i + 1));
            tail
        },
        None => cs,
    };
    let e = lower_ascii(seg.as_slice());
    let es = e.as_slice();
    if chars_eq(es, chars_of("txt").as_slice()) {
        ShareTypeLabel::Text
    } else if chars_eq(es, chars_of("md").as_slice()) {
        ShareTypeLabel::Markdown
    } else if chars_eq(es, chars_of("json").as_slice()) {
        ShareTypeLabel::Json
    } else if chars_eq(es, chars_of("pdf").as_slice()) {
        ShareTypeLabel::Pdf
    } else if chars_eq(es, chars_of("toml").as_slice()) {
        ShareTypeLabel::Toml
    } else if chars_eq(es, chars_of("rs").as_slice()) {
        ShareTypeLabel::Rust
    } else if chars_eq(es, chars_of("swift").as_slice()) {
        ShareTypeLabel::Swift
    } else {
        ShareTypeLabel::File
    }
}

/// Indices of the catalog tools that open a file, in catalog order.
pub open spec fn tools_for_file_spec(tools: Seq<ToolSummary>, file_name: Seq<char>) -> Seq<int>
    decreases tools.len(),
{
    if tools.len() == 0 {
        seq![]
    } else {
        let rest = tools_for_file_spec(tools.drop_last(), file_name);
        if tool_supports(tools.last(), file_name) {
            rest.push(tools.len() - 1)
        } else {
            rest
        }
    }
}

/// Indices of the catalog tools that open a file (see [`tools_for_file_spec`]).
pub fn workspace_catalog_tools_for_file(tools: &[ToolSummary], file_name: &str) -> (r: Vec<usize>)
    ensures
        r@.map_values(|i: usize| i as int) == tools_for_file_spec(tools@, file_name@),
{
    let mut out: Vec<usize> = Vec::new();
    let mut i: usize = 0;
    assert(out@.map_values(|i: usize| i as int) =~= tools_for_file_spec(tools@.take(0), file_name@));
    while i < tools.len()
        invariant
            i <= tools@.len(),
            out@.map_values(|i: usize| i as int) == tools_for_file_spec(tools@.take(i as int), file_name@),
        decreases tools@.len() - i,
    {
        let ghost prev = out@;
        assert(tools@.take(i + 1).drop_last() =~= tools@.take(i as int));
        assert(tools@.take(i + 1).last() == tools@[i as int]);
        if workspace_tool_supports_file(&tools[i], file_name) {
            out.push(i);
            assert(out@.map_values(|i: usize| i as int) =~= prev.map_values(|i: usize| i as int).push(
                i as int,
            ));
        }
        i = i + 1;
    }
    assert(tools@.take(i as int) =~= tools@);
    out
}

/// Tools whose canonical id is `app`'s.
pub open spec fn tool_is_app(tools: Seq<ToolSummary>, app: Seq<char>) -> spec_fn(int) -> bool {
    |i: int| canonical_id(tools[i].descriptor.id@) == canonical_id(app)
}

/// The first catalog tool whose canonical id is the app's.
pub fn workspace_catalog_tool(tools: &[ToolSummary], app: &str) -> (r: Option<usize>)
    ensures
        match r {
            Some(i) => i < tools@.len() && i as int == first_where(tools@.len(), tool_is_app(tools@, app@)),
            None => first_where(tools@.len(), tool_is_app(tools@, app@)) == -1,
        },
{
    let ghost p = tool_is_app(tools@, app@);
    let want = canonical_chars(app);
    let mut i: usize = 0;
    while i < tools.len()
        invariant
            i <= tools@.len(),
            p == tool_is_app(tools@, app@),
            want@ == canonical_id(app@),
            forall|j: int| 0 <= j < i ==> !#[trigger] p(j),
        decreases tools@.len() - i,
    {
        let c = canonical_chars(tools[i].descriptor.id.as_str());
        if chars_eq(c.as_slice(), want.as_slice()) {
            proof {
                lemma_first_where_found(tools@.len(), p, i as int);
            }
            return Some(i);
        }
        i = i + 1;
    }
    proof {
        lemma_first_where_none(tools@.len(), p);
    }
    None
}

/// The translation key of the runner label of an app on a worker: by the
/// execution mode of the first image offering it, or the default label.
pub open spec fn mode_key_spec(worker: WorkspaceWorker, app: Seq<char>) -> Seq<char> {
    match (if offering_index(worker.images@, canonical_id(app)) >= 0 {
        Some(worker.images@[offering_index(worker.images@, canonical_id(app))].execution_mode)
    } else {
        None
    }) {
        Some(WorkspaceExecutionMode::HostNative) => "devices.workspace.mode_host_native"@,
        Some(WorkspaceExecutionMode::VmGuest) => "devices.workspace.mode_vm_guest"@,
        None => "devices.workspace.runner_default"@,
    }
}

/// The translation key of the runner label of an app on a worker (see
/// [`mode_key_spec`]).
pub fn workspace_worker_mode_key(worker: &WorkspaceWorker, app: &str) -> (r: &'static str)
    ensures
        r@ == mode_key_spec(*worker, app@),
{
    match workspace_worker_execution_mode_for_app(worker, app) {
        Some(WorkspaceExecutionMode::HostNative) => "devices.workspace.mode_host_native",
        Some(WorkspaceExecutionMode::VmGuest) => "devices.workspace.mode_vm_guest",
        None => "devices.workspace.runner_default",
    }
}

/// Workers whose node id or dispatch endpoint is `author`.
pub open spec fn serves_author(workers: Seq<WorkspaceWorker>, author: Seq<char>) -> spec_fn(int) -> bool {
    |i: int| workers[i].node_id@ == author || opt_seq(workers[i].dispatch_endpoint_id) == Some(author)
}

/// The first worker serving the author of a file version.
pub fn workspace_worker_for_author(workers: &[WorkspaceWorker], author: &str) -> (r: Option<usize>)
    ensures
        match r {
            Some(i) => i < workers@.len() && first_where(workers@.len(), serves_author(workers@, author@)) == i,
            None => first_where(workers@.len(), serves_author(workers@, author@)) == -1,
        },
{
    let ghost p = serves_author(workers@, author@);
    let mut i: usize = 0;
    while i < workers.len()
        invariant
            i <= workers@.len(),
            p == serves_author(workers@, author@),
            forall|j: int| 0 <= j < i ==> !#[trigger] p(j),
        decreases workers@.len() - i,
    {
        let w = &workers[i];
        let by_endpoint = match &w.dispatch_endpoint_id {
            Some(e) => str_eq(e.as_str(), author),
            None => false,
        };
        if str_eq(w.node_id.as_str(), author) || by_endpoint {
            assert(p(i as int));
            proof {
                lemma_first_where_found(workers@.len(), p, i as int);
            }
            return Some(i);
        }
        i = i + 1;
    }
    proof {
        lemma_first_where_none(workers@.len(), p);
    }
    None
}

/// The workspace status line for the selected file.
#[derive(Debug, PartialEq, Eq)]
pub enum WorkspaceStatus {
    /// No file selected (`devices.workspace.pick_file`).
    PickFile,
    /// The file has no version author yet (`devices.workspace.prepare_identity`).
    PrepareIdentity,
    /// No worker serves the author (`devices.workspace.runner_not_ready`).
    RunnerNotReady,
    /// The worker offers the app (`devices.workspace.runner_ready`): its host
    /// and the key of its runner label.
    RunnerReady { host: String, mode_key: &'static str },
    /// The worker is online but lacks the app (`devices.workspace.online_image_missing`).
    ImageMissing { name: String, what: String },
}

/// The workspace status line: pick a file; wait for its author identity;
/// wait for a worker serving the author; else whether that worker offers
/// the selected app.
pub fn workspace_status(selected: Option<&ShareEntry>, workers: &[WorkspaceWorker], app: &str) -> (r: WorkspaceStatus)
    ensures
        match selected {
            None => r == WorkspaceStatus::PickFile,
            Some(e) => match e.version_author {
                None => r == WorkspaceStatus::PrepareIdentity,
                Some(a) => {
                    let k = first_where(workers@.len(), serves_author(workers@, a@));
                    if k < 0 {
                        r == WorkspaceStatus::RunnerNotReady
                    } else if offering_index(workers@[k].images@, canonical_id(app@)) >= 0 {
                        r matches WorkspaceStatus::RunnerReady { host, mode_key } && host@ == workers@[k].hostname@
                            && mode_key@ == mode_key_spec(workers@[k], app@)
                    } else {
                        r matches WorkspaceStatus::ImageMissing { name, what } && name@ == workers@[k].hostname@
                            && what@ == app@
                    }
                },
            },
        },
{
    let e = match selected {
        Some(e) => e,
        None => return WorkspaceStatus::PickFile,
    };
    let a = match &e.version_author {
        Some(a) => a,
        None => return WorkspaceStatus::PrepareIdentity,
    };
    let k = match workspace_worker_for_author(workers, a.as_str()) {
        Some(k) => k,
        None => return WorkspaceStatus::RunnerNotReady,
    };
    let w = &workers[k];
    if workspace_worker_supports_app(w, app) {
        WorkspaceStatus::RunnerReady { host: w.hostname.clone(), mode_key: workspace_worker_mode_key(w, app) }
    } else {
        WorkspaceStatus::ImageMissing { name: w.hostname.clone(), what: string_from(app) }
    }
}

/// What asking for an app to be installed on the author's worker does.
#[derive(Debug, PartialEq, Eq)]
pub enum ProvisionStep {
    /// A request or a job is already running, or no file is selected.
    Ignore,
    /// No cluster (`devices.workspace.no_cluster`).
    NoCluster,
    /// The file has no version author (`devices.workspace.missing_source`).
    MissingSource,
    /// The file has no entry id (`devices.workspace.missing_entry`).
    MissingEntry,
    /// Ask the author's worker to install `app` for the entry.
    Request { cluster_id: String, source_node_id: String, entry_id: String, app: String },
}

/// What asking for the selected app to be installed does: nothing while busy
/// or without a file; else the cluster, the file's author and its entry id
/// are needed, in that order.
pub fn provision_step(
    busy: bool,
    selected: Option<&ShareEntry>,
    cluster: Option<&ClusterStatus>,
    app: &str,
) -> (r: ProvisionStep)
    ensures
        busy || selected is None ==> r == ProvisionStep::Ignore,
        !busy && selected is Some ==> {
            let e = *selected->0;
            let cid = match cluster {
                Some(c) => opt_seq(c.cluster_id),
                None => None,
            };
            if cid is None {
                r == ProvisionStep::NoCluster
            } else if e.version_author is None {
                r == ProvisionStep::MissingSource
            } else if e.entry_id is None {
                r == ProvisionStep::MissingEntry
            } else {
                r matches ProvisionStep::Request { cluster_id, source_node_id, entry_id, app: a }
                    && cluster_id@ == cid->0 && source_node_id@ == e.version_author->0@
                    && entry_id@ == e.entry_id->0@ && a@ == app@
            }
        },
{
    if busy {
        return ProvisionStep::Ignore;
    }
    let e = match selected {
        Some(e) => e,
        None => return ProvisionStep::Ignore,
    };
    let cluster_id = match cluster {
        Some(c) => match &c.cluster_id {
            Some(id) => string_from(id.as_str()),
            None => return ProvisionStep::NoCluster,
        },
        None => return ProvisionStep::NoCluster,
    };
    let source = match &e.version_author {
        Some(a) => string_from(a.as_str()),
        None => return ProvisionStep::MissingSource,
    };
    let entry_id = match &e.entry_id {
        Some(id) => string_from(id.as_str()),
        None => return ProvisionStep::MissingEntry,
    };
    ProvisionStep::Request { cluster_id, source_node_id: source, entry_id, app: string_from(app) }
}

/// What confirming an app in the picker does.
#[derive(Debug, Clone, Copy, PartialEq, Eq, Structural)]
pub enum AppPickOutcome {
    /// No file is selected: the picker closes.
    ClosePicker,
    /// The app is not installed for the file: nothing happens.
    Ignore,
    /// The choice is saved, the picker closes and the file opens.
    OpenNow,
    /// The choice is saved, the picker closes and the app is requested on
    /// the author's worker.
    Provision,
}

/// A worker that can open the file in `app` now: available, its machine
/// ready, and offering the app.
pub open spec fn worker_can_open(w: WorkspaceWorker, app: Seq<char>) -> bool {
    w.available && w.vm_ready && offering_index(w.images@, canonical_id(app)) >= 0
}

/// What confirming `app` for the selected file does: without a file the
/// picker closes; an app not installed for it is ignored; a file without
/// author, or whose author's worker can open it now, opens; otherwise the
/// app is requested.
pub fn app_pick_outcome(
    selected: Option<&ShareEntry>,
    installed_has_app: bool,
    workers: &[WorkspaceWorker],
    app: &str,
) -> (r: AppPickOutcome)
    ensures
        selected is None ==> r == AppPickOutcome::ClosePicker,
        selected is Some && !installed_has_app ==> r == AppPickOutcome::Ignore,
        selected is Some && installed_has_app ==> {
            let e = *selected->0;
            match e.version_author {
                None => r == AppPickOutcome::OpenNow,
                Some(a) => if a@.len() == 0 {
                    r == AppPickOutcome::OpenNow
                } else {
                    let k = first_where(workers@.len(), serves_author(workers@, a@));
                    if k >= 0 && worker_can_open(workers@[k], app@) {
                        r == AppPickOutcome::OpenNow
                    } else {
                        r == AppPickOutcome::Provision
                    }
                },
            }
        },
{
    let e = match selected {
        Some(e) => e,
        None => return AppPickOutcome::ClosePicker,
    };
    if !installed_has_app {
        return AppPickOutcome::Ignore;
    }
    let a = match &e.version_author {
        Some(a) => a,
        None => return AppPickOutcome::OpenNow,
    };
    if a.as_str().unicode_len() == 0 {
        return AppPickOutcome::OpenNow;
    }
    match workspace_worker_for_author(workers, a.as_str()) {
        Some(k) => {
            let w = &workers[k];
            if w.available && w.vm_ready && workspace_worker_supports_app(w, app) {
                AppPickOutcome::OpenNow
            } else {
                AppPickOutcome::Provision
            }
        },
        None => AppPickOutcome::Provision,
    }
}

/// How a file opening in `app` is announced: the runner label key of the
/// author's worker (the default label without one) and whether the app
/// runs natively on the host (which adds a focus hint).
pub fn opening_hint(selected: Option<&ShareEntry>, workers: &[WorkspaceWorker], app: &str) -> (r: (&'static str, bool))
    ensures
        ({
            let k = match selected {
                Some(e) => match e.version_author {
                    Some(a) => first_where(workers@.len(), serves_author(workers@, a@)),
                    None => -1,
                },
                None => -1,
            };
            if k >= 0 {
                let w = workers@[k];
                let o = offering_index(w.images@, canonical_id(app@));
                r.0@ == mode_key_spec(w, app@) && r.1 == (o >= 0 && w.images@[o].execution_mode
                    == WorkspaceExecutionMode::HostNative)
            } else {
                r.0@ == "devices.workspace.runner_default"@ && !r.1
            }
        }),
{
    proof {
        reveal_strlit("devices.workspace.runner_default");
    }
    let k = match selected {
        Some(e) => match &e.version_author {
            Some(a) => workspace_worker_for_author(workers, a.as_str()),
            None => None,
        },
        None => None,
    };
    match k {
        Some(k) => {
            let w = &workers[k];
            let key = workspace_worker_mode_key(w, app);
            let native = match workspace_worker_execution_mode_for_app(w, app) {
                Some(WorkspaceExecutionMode::HostNative) => true,
                _ => false,
            };
            (key, native)
        },
        None => ("devices.workspace.runner_default", false),
    }
}

/// A user app installed on this device.
#[derive(Debug)]
pub struct UserApp {
    pub app_id: String,
    pub display_name: String,
    pub extensions: Vec<String>,
}

/// A user app offered by the catalog.
#[derive(Debug)]
pub struct CatalogUserApp {
    pub app_id: String,
    pub display_name: String,
    pub visibility: String,
    pub package_ready: bool,
    pub extensions: Vec<String>,
}

/// User apps whose id is `app` up to ASCII case.
pub open spec fn user_app_is(apps: Seq<UserApp>, app: Seq<char>) -> spec_fn(int) -> bool {
    |i: int| eq_ignore_ascii_case(apps[i].app_id@, app)
}

/// Catalog user apps whose id is `app` up to ASCII case.
pub open spec fn catalog_app_is(apps: Seq<CatalogUserApp>, app: Seq<char>) -> spec_fn(int) -> bool {
    |i: int| eq_ignore_ascii_case(apps[i].app_id@, app)
}

fn user_app_index(apps: &[UserApp], app: &str) -> (r: Option<usize>)
    ensures
        match r {
            Some(k) => k < apps@.len() && first_where(apps@.len(), user_app_is(apps@, app@)) == k,
            None => first_where(apps@.len(), user_app_is(apps@, app@)) == -1,
        },
{
    let ghost p = user_app_is(apps@, app@);
    let want = chars_of(app);
    let mut i: usize = 0;
    while i < apps.len()
        invariant
            i <= apps@.len(),
            p == user_app_is(apps@, app@),
            want@ == app@,
            forall|j: int| 0 <= j < i ==> !#[trigger] p(j),
        decreases apps@.len() - i,
    {
        let id = chars_of(apps[i].app_id.as_str());
        if chars_eq_ignore_ascii_case(id.as_slice(), want.as_slice()) {
            assert(p(i as int));
            proof {
                lemma_first_where_found(apps@.len(), p, i as int);
            }
            return Some(i);
        }
        i = i + 1;
    }
    proof {
        lemma_first_where_none(apps@.len(), p);
    }
    None
}

fn catalog_app_index(apps: &[CatalogUserApp], app: &str) -> (r: Option<usize>)
    ensures
        match r {
            Some(k) => k < apps@.len() && first_where(apps@.len(), catalog_app_is(apps@, app@)) == k,
            None => first_where(apps@.len(), catalog_app_is(apps@, app@)) == -1,
        },
{
    let ghost p = catalog_app_is(apps@, app@);
    let want = chars_of(app);
    let mut i: usize = 0;
    while i < apps.len()
        invariant
            i <= apps@.len(),
            p == catalog_app_is(apps@, app@),
            want@ == app@,
            forall|j: int| 0 <= j < i ==> !#[trigger] p(j),
        decreases apps@.len() - i,
    {
        let id = chars_of(apps[i].app_id.as_str());
        if chars_eq_ignore_ascii_case(id.as_slice(), want.as_slice()) {
            assert(p(i as int));
            proof {
                lemma_first_where_found(apps@.len(), p, i as int);
            }
            return Some(i);
        }
        i = i + 1;
    }
    proof {
        lemma_first_where_none(apps@.len(), p);
    }
    None
}

/// The name shown for an app: the catalog tool's name, else the installed
/// user app's name, else the catalog user app's name, else the id itself;
/// none for an empty id without any of these (`devices.workspace.no_app_selected`).
pub fn workspace_app_label(
    tools: &[ToolSummary],
    user_apps: &[UserApp],
    catalog_apps: &[CatalogUserApp],
    app: &str,
) -> (r: Option<String>)
    ensures
        ({
            let t = first_where(tools@.len(), tool_is_app(tools@, app@));
            let u = first_where(user_apps@.len(), user_app_is(user_apps@, app@));
            let c = first_where(catalog_apps@.len(), catalog_app_is(catalog_apps@, app@));
            if t >= 0 {
                opt_seq(r) == Some(tools@[t].descriptor.name@)
            } else if u >= 0 {
                opt_seq(r) == Some(user_apps@[u].display_name@)
            } else if c >= 0 {
                opt_seq(r) == Some(catalog_apps@[c].display_name@)
            } else if app@.len() == 0 {
                r is None
            } else {
                opt_seq(r) == Some(app@)
            }
        }),
{
    if let Some(t) = workspace_catalog_tool(tools, app) {
        return Some(tools[t].descriptor.name.clone());
    }
    if let Some(u) = user_app_index(user_apps, app) {
        return Some(user_apps[u].display_name.clone());
    }
    if let Some(c) = catalog_app_index(catalog_apps, app) {
        return Some(catalog_apps[c].display_name.clone());
    }
    if app.unicode_len() == 0 {
        None
    } else {
        Some(string_from(app))
    }
}

/// The description shown for an app.
#[derive(Debug, PartialEq, Eq)]
pub enum AppDescription {
    /// The catalog tool's description.
    Tool(String),
    /// An installed user app and the extensions it opens, joined by `, `
    /// (`devices.workspace.user_app_exts`); none for any extension
    /// (`devices.workspace.any_ext`).
    UserApp(Option<String>),
    /// A catalog user app and its visibility (`devices.workspace.user_app_catalog`).
    Catalog(String),
    /// Some registered user app capability (`devices.workspace.registered_user_apps`).
    Registered,
    /// Nothing to say.
    Empty,
}

fn join_with_comma(parts: &[String]) -> (r: String)
    ensures
        r@ == crate::cluster::join(parts@.map_values(|p: String| p@), ", "@),
{
    let ghost pv = parts@.map_values(|p: String| p@);
    let mut r = String::new();
    if parts.len() == 0 {
        return r;
    }
    crate::text::push_str(&mut r, parts[0].as_str());
    assert(pv.take(1) =~= seq![pv[0]]);
    let mut i: usize = 1;
    while i < parts.len()
        invariant
            1 <= i <= parts@.len(),
            pv == parts@.map_values(|p: String| p@),
            r@ == crate::cluster::join(pv.take(i as int), ", "@),
        decreases parts@.len() - i,
    {
        crate::text::push_str(&mut r, ", ");
        crate::text::push_str(&mut r, parts[i].as_str());
        proof {
            let t = pv.take(i + 1);
            assert(t.drop_last() =~= pv.take(i as int));
            assert(t.last() == pv[i as int]);
        }
        i = i + 1;
    }
    assert(pv.take(i as int) =~= pv);
    r
}

/// The description shown for an app: the catalog tool's, else the
/// installed user app's extensions, else the catalog user app's visibility,
/// else a note for a registered user app capability (`registered`, as the
/// core reports it), else nothing.
pub fn workspace_app_desc(
    tools: &[ToolSummary],
    user_apps: &[UserApp],
    catalog_apps: &[CatalogUserApp],
    app: &str,
    registered: bool,
) -> (r: AppDescription)
    ensures
        ({
            let t = first_where(tools@.len(), tool_is_app(tools@, app@));
            let u = first_where(user_apps@.len(), user_app_is(user_apps@, app@));
            let c = first_where(catalog_apps@.len(), catalog_app_is(catalog_apps@, app@));
            if t >= 0 {
                r matches AppDescription::Tool(d) && d@ == tools@[t].descriptor.description@
            } else if u >= 0 {
                let exts = user_apps@[u].extensions@;
                if exts.len() == 0 {
                    r == AppDescription::UserApp(None)
                } else {
                    r matches AppDescription::UserApp(Some(e)) && e@ == crate::cluster::join(
                        exts.map_values(|p: String| p@),
                        ", "@,
                    )
                }
            } else if c >= 0 {
                r matches AppDescription::Catalog(v) && v@ == catalog_apps@[c].visibility@
            } else if registered {
                r == AppDescription::Registered
            } else {
                r == AppDescription::Empty
            }
        }),
{
    if let Some(t) = workspace_catalog_tool(tools, app) {
        return AppDescription::Tool(tools[t].descriptor.description.clone());
    }
    if let Some(u) = user_app_index(user_apps, app) {
        let exts = &user_apps[u].extensions;
        if exts.len() == 0 {
            return AppDescription::UserApp(None);
        }
        return AppDescription::UserApp(Some(join_with_comma(exts.as_slice())));
    }
    if let Some(c) = catalog_app_index(catalog_apps, app) {
        return AppDescription::Catalog(catalog_apps[c].visibility.clone());
    }
    if registered {
        AppDescription::Registered
    } else {
        AppDescription::Empty
    }
}

/// Whether an app can be picked: its canonical id names a catalog tool, a
/// registered user app capability (`registered`, as the core reports it for
/// that id), or an installed user app up to ASCII case; the canonical id is
/// returned. Otherwise opening is unsupported (`devices.workspace.unsupported_open`).
pub fn pick_workspace_app(tools: &[ToolSummary], user_apps: &[UserApp], app: &str, registered: bool) -> (r: Option<String>)
    ensures
        ({
            let c = canonical_id(app@);
            let known = first_where(tools@.len(), tool_is_app(tools@, c)) >= 0 || registered || first_where(
                user_apps@.len(),
                user_app_is(user_apps@, c),
            ) >= 0;
            if known {
                opt_seq(r) == Some(c)
            } else {
                r is None
            }
        }),
{
    let c = workspace_canonical_tool_id(app);
    let known = workspace_catalog_tool(tools, c.as_str()).is_some() || registered || user_app_index(
        user_apps,
        c.as_str(),
    ).is_some();
    if known {
        Some(c)
    } else {
        None
    }
}

/// The app recommended for a file: the first app installed for it on the
/// author's worker, else the canonical id of the first catalog tool that
/// opens it, else none (empty).
pub open spec fn recommended_spec(installed: Seq<Seq<char>>, tools: Seq<ToolSummary>, file_name: Seq<char>) -> Seq<char> {
    if installed.len() > 0 {
        installed[0]
    } else {
        let ts = tools_for_file_spec(tools, file_name);
        if ts.len() > 0 {
            canonical_id(tools[ts[0]].descriptor.id@)
        } else {
            Seq::empty()
        }
    }
}

/// The app recommended for a file (see [`recommended_spec`]), given the apps
/// installed for it.
pub fn recommended_workspace_app(installed: &[String], tools: &[ToolSummary], file_name: &str) -> (r: String)
    ensures
        r@ == recommended_spec(installed@.map_values(|a: String| a@), tools@, file_name@),
{
    if installed.len() > 0 {
        return installed[0].clone();
    }
    let ts = workspace_catalog_tools_for_file(tools, file_name);
    if ts.len() > 0 {
        proof {
            assert(ts@.map_values(|i: usize| i as int)[0] == ts@[0] as int);
            lemma_tools_for_file_in_range(tools@, file_name@);
        }
        return workspace_canonical_tool_id(tools[ts[0]].descriptor.id.as_str());
    }
    String::new()
}

proof fn lemma_tools_for_file_in_range(tools: Seq<ToolSummary>, file_name: Seq<char>)
    ensures
        forall|k: int|
            0 <= k < tools_for_file_spec(tools, file_name).len() ==> 0 <= #[trigger] tools_for_file_spec(
                tools,
                file_name,
            )[k] < tools.len(),
    decreases tools.len(),
{
    if tools.len() > 0 {
        let t = tools.drop_last();
        lemma_tools_for_file_in_range(t, file_name);
        let rest = tools_for_file_spec(t, file_name);
        assert forall|k: int| 0 <= k < tools_for_file_spec(tools, file_name).len() implies 0
            <= #[trigger] tools_for_file_spec(tools, file_name)[k] < tools.len() by {
            if k < rest.len() {
                assert(tools_for_file_spec(tools, file_name)[k] == rest[k]);
            }
        }
    }
}

/// The app the picker starts on: the selected one when it is installed for
/// the file, else the first installed one, else the recommended one.
pub fn picker_initial_app(selected: &str, installed: &[String], tools: &[ToolSummary], file_name: &str) -> (r: String)
    ensures
        ({
            let inst = installed@.map_values(|a: String| a@);
            if inst.contains(selected@) {
                r@ == selected@
            } else {
                r@ == recommended_spec(inst, tools@, file_name@)
            }
        }),
{
    let ghost inst = installed@.map_values(|a: String| a@);
    let mut i: usize = 0;
    while i < installed.len()
        invariant
            i <= installed@.len(),
            inst == installed@.map_values(|a: String| a@),
            forall|j: int| 0 <= j < i ==> inst[j] != selected@,
        decreases installed@.len() - i,
    {
        if str_eq(installed[i].as_str(), selected) {
            assert(inst[i as int] == selected@);
            return string_from(selected);
        }
        i = i + 1;
    }
    assert(!inst.contains(selected@));
    recommended_workspace_app(installed, tools, file_name)
}

/// Some listed app is `x` up to ASCII case.
pub open spec fn listed_ci(out: Seq<Seq<char>>, x: Seq<char>) -> bool {
    exists|k: int| 0 <= k < out.len() && eq_ignore_ascii_case(#[trigger] out[k], x)
}

/// The worker offers `app` (by canonical id).
pub open spec fn worker_offers(w: WorkspaceWorker, app: Seq<char>) -> bool {
    offering_index(w.images@, canonical_id(app)) >= 0
}

/// First pass: the canonical ids of the catalog tools at `ts` that the
/// worker offers, each once.
pub open spec fn tool_pass(tools: Seq<ToolSummary>, ts: Seq<int>, w: WorkspaceWorker) -> Seq<Seq<char>>
    decreases ts.len(),
{
    if ts.len() == 0 {
        Seq::empty()
    } else {
        let o = tool_pass(tools, ts.drop_last(), w);
        let id = canonical_id(tools[ts.last()].descriptor.id@);
        if worker_offers(w, id) && !o.contains(id) {
            o.push(id)
        } else {
            o
        }
    }
}

/// Second pass over the first `n` user apps: those that open the file
/// (`opens`), that the worker offers and that are not listed yet (up to
/// ASCII case).
pub open spec fn user_pass(
    apps: Seq<UserApp>,
    opens: Seq<bool>,
    w: WorkspaceWorker,
    start: Seq<Seq<char>>,
    n: nat,
) -> Seq<Seq<char>>
    decreases n,
{
    if n == 0 {
        start
    } else {
        let o = user_pass(apps, opens, w, start, (n - 1) as nat);
        let a = apps[n - 1].app_id@;
        if opens[n - 1] && worker_offers(w, a) && !listed_ci(o, a) {
            o.push(a)
        } else {
            o
        }
    }
}

/// Every app the worker's images list, image after image.
pub open spec fn worker_apps(images: Seq<WorkerImage>) -> Seq<Seq<char>>
    decreases images.len(),
{
    if images.len() == 0 {
        Seq::empty()
    } else {
        worker_apps(images.drop_last()) + images.last().installed_apps@.map_values(|a: String| a@)
    }
}

/// Flags per image, flattened in the same order.
pub open spec fn flat_flags(f: Seq<Seq<bool>>) -> Seq<bool>
    decreases f.len(),
{
    if f.len() == 0 {
        Seq::empty()
    } else {
        flat_flags(f.drop_last()) + f.last()
    }
}

/// A worker app that may be listed for the file: when it names an installed
/// user app (up to ASCII case) that one must open the file; else when it
/// names a catalog user app, that one must.
pub open spec fn app_opens_file(
    x: Seq<char>,
    apps: Seq<UserApp>,
    opens: Seq<bool>,
    catalog: Seq<CatalogUserApp>,
    catalog_opens: Seq<bool>,
) -> bool {
    let u = first_where(apps.len(), user_app_is(apps, x));
    let c = first_where(catalog.len(), catalog_app_is(catalog, x));
    if u >= 0 {
        opens[u]
    } else if c >= 0 {
        catalog_opens[c]
    } else {
        true
    }
}

/// Third pass over the first `n` apps of the worker: registered user app
/// capabilities (`capability`) not listed yet (up to ASCII case) that open
/// the file.
pub open spec fn capability_pass(
    xs: Seq<Seq<char>>,
    capability: Seq<bool>,
    apps: Seq<UserApp>,
    opens: Seq<bool>,
    catalog: Seq<CatalogUserApp>,
    catalog_opens: Seq<bool>,
    start: Seq<Seq<char>>,
    n: nat,
) -> Seq<Seq<char>>
    decreases n,
{
    if n == 0 {
        start
    } else {
        let o = capability_pass(xs, capability, apps, opens, catalog, catalog_opens, start, (n - 1) as nat);
        let x = xs[n - 1];
        if capability[n - 1] && !listed_ci(o, x) && app_opens_file(x, apps, opens, catalog, catalog_opens) {
            o.push(x)
        } else {
            o
        }
    }
}

/// The apps installed for a file on its author's worker: the catalog tools
/// for the file that the worker offers, then the user apps that open the
/// file and that the worker offers, then the registered user app
/// capabilities the worker lists that open the file; each app once (tools
/// by canonical id, the others up to ASCII case).
pub open spec fn installed_spec(
    tools: Seq<ToolSummary>,
    apps: Seq<UserApp>,
    opens: Seq<bool>,
    catalog: Seq<CatalogUserApp>,
    catalog_opens: Seq<bool>,
    w: WorkspaceWorker,
    capability: Seq<Seq<bool>>,
    file_name: Seq<char>,
) -> Seq<Seq<char>> {
    let first = tool_pass(tools, tools_for_file_spec(tools, file_name), w);
    let second = user_pass(apps, opens, w, first, apps.len());
    let xs = worker_apps(w.images@);
    capability_pass(xs, flat_flags(capability), apps, opens, catalog, catalog_opens, second, xs.len())
}

fn listed_ci_exec(out: &Vec<String>, x: &str) -> (r: bool)
    ensures
        r == listed_ci(out@.map_values(|a: String| a@), x@),
{
    let ghost ov = out@.map_values(|a: String| a@);
    let xc = chars_of(x);
    let mut i: usize = 0;
    while i < out.len()
        invariant
            i <= out@.len(),
            ov == out@.map_values(|a: String| a@),
            xc@ == x@,
            forall|k: int| 0 <= k < i ==> !eq_ignore_ascii_case(#[trigger] ov[k], x@),
        decreases out@.len() - i,
    {
        let oc = chars_of(out[i].as_str());
        if chars_eq_ignore_ascii_case(oc.as_slice(), xc.as_slice()) {
            assert(eq_ignore_ascii_case(ov[i as int], x@));
            return true;
        }
        i = i + 1;
    }
    false
}

fn contains_exact(out: &Vec<String>, x: &str) -> (r: bool)
    ensures
        r == out@.map_values(|a: String| a@).contains(x@),
{
    let ghost ov = out@.map_values(|a: String| a@);
    let mut i: usize = 0;
    while i < out.len()
        invariant
            i <= out@.len(),
            ov == out@.map_values(|a: String| a@),
            forall|k: int| 0 <= k < i ==> ov[k] != x@,
        decreases out@.len() - i,
    {
        if str_eq(out[i].as_str(), x) {
            assert(ov[i as int] == x@);
            return true;
        }
        i = i + 1;
    }
    false
}

proof fn lemma_push_view(out: Seq<String>, s: String)
    ensures
        out.push(s).map_values(|a: String| a@) == out.map_values(|a: String| a@).push(s@),
{
    assert(out.push(s).map_values(|a: String| a@) =~= out.map_values(|a: String| a@).push(s@));
}

/// The apps installed for `file_name` on `worker` (see [`installed_spec`]).
/// `opens` and `catalog_opens` say, per installed and per catalog user app,
/// whether it opens the file; `capability` says, per app listed by each
/// image of the worker, whether it is a registered user app capability
/// (both as the core decides them).
pub fn installed_apps_for_file(
    tools: &[ToolSummary],
    apps: &[UserApp],
    opens: &[bool],
    catalog: &[CatalogUserApp],
    catalog_opens: &[bool],
    worker: &WorkspaceWorker,
    capability: &Vec<Vec<bool>>,
    file_name: &str,
) -> (r: Vec<String>)
    requires
        opens@.len() == apps@.len(),
        catalog_opens@.len() == catalog@.len(),
        capability@.len() == worker.images@.len(),
        forall|i: int| 0 <= i < capability@.len() ==> (#[trigger] capability@[i])@.len() == worker.images@[i].installed_apps@.len(),
    ensures
        r@.map_values(|a: String| a@) == installed_spec(
            tools@,
            apps@,
            opens@,
            catalog@,
            catalog_opens@,
            *worker,
            capability@.map_values(|v: Vec<bool>| v@),
            file_name@,
        ),
{
    let mut out: Vec<String> = Vec::new();
    let ts = workspace_catalog_tools_for_file(tools, file_name);
    let ghost tsv = ts@.map_values(|i: usize| i as int);
    proof {
        lemma_tools_for_file_in_range(tools@, file_name@);
    }
    let mut i: usize = 0;
    while i < ts.len()
        invariant
            i <= ts@.len(),
            tsv == ts@.map_values(|i: usize| i as int),
            tsv == tools_for_file_spec(tools@, file_name@),
            forall|k: int| 0 <= k < tsv.len() ==> 0 <= #[trigger] tsv[k] < tools@.len(),
            out@.map_values(|a: String| a@) == tool_pass(tools@, tsv.take(i as int), *worker),
        decreases ts@.len() - i,
    {
        assert(tsv[i as int] == ts@[i as int] as int);
        let id = workspace_canonical_tool_id(tools[ts[i]].descriptor.id.as_str());
        proof {
            let t = tsv.take(i + 1);
            assert(t.drop_last() =~= tsv.take(i as int));
            assert(t.last() == tsv[i as int]);
        }
        if workspace_worker_supports_app(worker, id.as_str()) && !contains_exact(&out, id.as_str()) {
            proof {
                assert(canonical_id(canonical_id(tools@[tsv[i as int]].descriptor.id@)) == canonical_id(
                    tools@[tsv[i as int]].descriptor.id@,
                )) by {
                    crate::laws::law_canonical_id_is_idempotent(tools@[tsv[i as int]].descriptor.id@, seq![]);
                }
                lemma_push_view(out@, id);
            }
            out.push(id);
        } else {
            proof {
                crate::laws::law_canonical_id_is_idempotent(tools@[tsv[i as int]].descriptor.id@, seq![]);
            }
        }
        i = i + 1;
    }
    assert(tsv.take(i as int) =~= tsv);
    let ghost first = out@.map_values(|a: String| a@);
    let mut j: usize = 0;
    while j < apps.len()
        invariant
            j <= apps@.len(),
            opens@.len() == apps@.len(),
            out@.map_values(|a: String| a@) == user_pass(apps@, opens@, *worker, first, j as nat),
        decreases apps@.len() - j,
    {
        let a = &apps[j];
        if opens[j] && workspace_worker_supports_app(worker, a.app_id.as_str()) && !listed_ci_exec(&out, a.app_id.as_str()) {
            let s = a.app_id.clone();
            proof {
                lemma_push_view(out@, s);
            }
            out.push(s);
        }
        j = j + 1;
    }
    let ghost second = out@.map_values(|a: String| a@);
    let ghost xs = worker_apps(worker.images@);
    let ghost capv = capability@.map_values(|v: Vec<bool>| v@);
    let ghost flags = flat_flags(capv);
    let ghost done: nat = 0;
    let mut m: usize = 0;
    while m < worker.images.len()
        invariant
            m <= worker.images@.len(),
            opens@.len() == apps@.len(),
            catalog_opens@.len() == catalog@.len(),
            capability@.len() == worker.images@.len(),
            forall|i: int| 0 <= i < capability@.len() ==> (#[trigger] capability@[i])@.len() == worker.images@[i].installed_apps@.len(),
            capv == capability@.map_values(|v: Vec<bool>| v@),
            xs == worker_apps(worker.images@),
            flags == flat_flags(capv),
            worker_apps(worker.images@.take(m as int)).len() == flat_flags(capv.take(m as int)).len(),
            out@.map_values(|a: String| a@) == capability_pass(
                worker_apps(worker.images@.take(m as int)),
                flat_flags(capv.take(m as int)),
                apps@,
                opens@,
                catalog@,
                catalog_opens@,
                second,
                worker_apps(worker.images@.take(m as int)).len(),
            ),
        decreases worker.images@.len() - m,
    {
        let image = &worker.images[m];
        let caps = &capability[m];
        let ghost before_x = worker_apps(worker.images@.take(m as int));
        let ghost before_f = flat_flags(capv.take(m as int));
        let ghost ix = image.installed_apps@.map_values(|a: String| a@);
        proof {
            let ti = worker.images@.take(m + 1);
            assert(ti.drop_last() =~= worker.images@.take(m as int));
            assert(ti.last() == worker.images@[m as int]);
            let tc = capv.take(m + 1);
            assert(tc.drop_last() =~= capv.take(m as int));
            assert(tc.last() == capv[m as int]);
            assert(capv[m as int] == caps@);
        }
        let mut k: usize = 0;
        while k < image.installed_apps.len()
            invariant
                k <= image.installed_apps@.len(),
                caps@.len() == image.installed_apps@.len(),
                ix == image.installed_apps@.map_values(|a: String| a@),
                before_x.len() == before_f.len(),
                opens@.len() == apps@.len(),
                catalog_opens@.len() == catalog@.len(),
                out@.map_values(|a: String| a@) == capability_pass(
                    before_x + ix.take(k as int),
                    before_f + caps@.take(k as int),
                    apps@,
                    opens@,
                    catalog@,
                    catalog_opens@,
                    second,
                    (before_x.len() + k) as nat,
                ),
            decreases image.installed_apps@.len() - k,
        {
            let x = &image.installed_apps[k];
            proof {
                let xa = before_x + ix.take(k + 1);
                let fa = before_f + caps@.take(k + 1);
                let xb = before_x + ix.take(k as int);
                let fb = before_f + caps@.take(k as int);
                assert(xa.len() == before_x.len() + k + 1);
                assert forall|q: int| 0 <= q < before_x.len() + k implies xa[q] == xb[q] && fa[q] == fb[q] by {}
                lemma_capability_pass_prefix(xa, fa, xb, fb, apps@, opens@, catalog@, catalog_opens@, second, (before_x.len() + k) as nat);
                assert(xa[before_x.len() + k] == ix[k as int]);
                assert(fa[before_x.len() + k] == caps@[k as int]);
            }
            if caps[k] && !listed_ci_exec(&out, x.as_str()) {
                let allowed = match user_app_index(apps, x.as_str()) {
                    Some(u) => opens[u],
                    None => match catalog_app_index(catalog, x.as_str()) {
                        Some(c) => catalog_opens[c],
                        None => true,
                    },
                };
                if allowed {
                    let s = x.clone();
                    proof {
                        lemma_push_view(out@, s);
                    }
                    out.push(s);
                }
            }
            k = k + 1;
        }
        proof {
            assert(ix.take(k as int) =~= ix);
            assert(caps@.take(k as int) =~= caps@);
            assert(worker_apps(worker.images@.take(m + 1)) == before_x + ix);
            assert(flat_flags(capv.take(m + 1)) == before_f + caps@);
        }
        m = m + 1;
    }
    proof {
        assert(worker.images@.take(m as int) =~= worker.images@);
        assert(capv.take(m as int) =~= capv);
    }
    out
}

proof fn lemma_capability_pass_prefix(
    xa: Seq<Seq<char>>,
    fa: Seq<bool>,
    xb: Seq<Seq<char>>,
    fb: Seq<bool>,
    apps: Seq<UserApp>,
    opens: Seq<bool>,
    catalog: Seq<CatalogUserApp>,
    catalog_opens: Seq<bool>,
    start: Seq<Seq<char>>,
    n: nat,
)
    requires
        n <= xa.len(),
        n <= xb.len(),
        n <= fa.len(),
        n <= fb.len(),
        forall|q: int| 0 <= q < n ==> xa[q] == xb[q] && fa[q] == fb[q],
    ensures
        capability_pass(xa, fa, apps, opens, catalog, catalog_opens, start, n) == capability_pass(
            xb,
            fb,
            apps,
            opens,
            catalog,
            catalog_opens,
            start,
            n,
        ),
    decreases n,
{
    if n > 0 {
        lemma_capability_pass_prefix(xa, fa, xb, fb, apps, opens, catalog, catalog_opens, start, (n - 1) as nat);
    }
}

/// A hint about window focus in the app picker.
#[derive(Debug, Clone, Copy, PartialEq, Eq, Structural)]
pub enum FocusHint {
    /// The app runs natively on the host (`devices.workspace.host_native_focus_warn`).
    HostNative,
    /// The app runs in a virtual machine (`devices.workspace.vm_guest_focus_hint`).
    VmGuest,
}

/// The focus hint of the app picker: by the execution mode, on the selected
/// file's author worker, of the selected app (the recommended one when none
/// is selected); none without an author, a worker or an image offering it.
pub fn picker_focus_hint(
    selected: Option<&ShareEntry>,
    workers: &[WorkspaceWorker],
    selected_app: &str,
    recommended_app: &str,
) -> (r: Option<FocusHint>)
    ensures
        ({
            let k = match selected {
                Some(e) => match e.version_author {
                    Some(a) => first_where(workers@.len(), serves_author(workers@, a@)),
                    None => -1,
                },
                None => -1,
            };
            let app = if selected_app@.len() == 0 {
                recommended_app@
            } else {
                selected_app@
            };
            if k >= 0 {
                let w = workers@[k];
                let o = offering_index(w.images@, canonical_id(app));
                if o >= 0 {
                    r == Some(
                        match w.images@[o].execution_mode {
                            WorkspaceExecutionMode::HostNative => FocusHint::HostNative,
                            WorkspaceExecutionMode::VmGuest => FocusHint::VmGuest,
                        },
                    )
                } else {
                    r is None
                }
            } else {
                r is None
            }
        }),
{
    let k = match selected {
        Some(e) => match &e.version_author {
            Some(a) => workspace_worker_for_author(workers, a.as_str()),
            None => None,
        },
        None => None,
    };
    let k = match k {
        Some(k) => k,
        None => return None,
    };
    let app = if selected_app.unicode_len() == 0 {
        recommended_app
    } else {
        selected_app
    };
    match workspace_worker_execution_mode_for_app(&workers[k], app) {
        Some(WorkspaceExecutionMode::HostNative) => Some(FocusHint::HostNative),
        Some(WorkspaceExecutionMode::VmGuest) => Some(FocusHint::VmGuest),
        None => None,
    }
}

} // verus!
