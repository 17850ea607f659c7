//! The template store: names, paths and manifests of the workloads that can
//! be started.
//!
//! A template is one regular file of the template directory. Its name is the
//! file's name without its extension; its manifest is the file's text. A
//! template can be started where its text reads as a pod, and is listed in
//! the catalog where its text declares a name, a version and a description.
//! Reading the directory and the files is the caller's part: the functions
//! here say which entries are templates, which file to read, and what the
//! text read amounts to.

use crate::error::{Upstream, ZeusError, ZeusErrorView};
use crate::json::{
    is_pod_text, json_strings, json_text_strings, parse_document, parse_pod, string_at,
};
use crate::text::chars_of;
use vstd::prelude::*;

verus! {

/// The characters that are cut from both ends of a requested name.
pub open spec fn is_path_char(c: char) -> bool {
    c == '.' || c == '/'
}

/// `s` without its leading `.` and `/`.
pub open spec fn trim_start(s: Seq<char>) -> Seq<char>
    decreases s.len(),
{
    if s.len() > 0 && is_path_char(s[0]) {
        trim_start(s.drop_first())
    } else {
        s
    }
}

/// `s` without its trailing `.` and `/`.
pub open spec fn trim_end(s: Seq<char>) -> Seq<char>
    decreases s.len(),
{
    if s.len() > 0 && is_path_char(s.last()) {
        trim_end(s.drop_last())
    } else {
        s
    }
}

/// A requested name with `.` and `/` cut from both ends.
pub open spec fn sanitized(name: Seq<char>) -> Seq<char> {
    trim_end(trim_start(name))
}

/// Cutting from the front takes a run of `.` and `/` and stops at the first
/// other character.
proof fn lemma_trim_start(s: Seq<char>, from: int)
    requires
        0 <= from <= s.len(),
        forall|k: int| 0 <= k < from ==> is_path_char(#[trigger] s[k]),
        from < s.len() ==> !is_path_char(s[from]),
    ensures
        trim_start(s) == s.subrange(from, s.len() as int),
    decreases from,
{
    if from == 0 {
        assert(s.subrange(0, s.len() as int) =~= s);
    } else {
        assert(is_path_char(s[0]));
        let rest = s.drop_first();
        assert forall|k: int| 0 <= k < from - 1 implies is_path_char(#[trigger] rest[k]) by {
            assert(rest[k] == s[k + 1]);
        }
        lemma_trim_start(rest, from - 1);
        assert(rest.subrange(from - 1, rest.len() as int) =~= s.subrange(from, s.len() as int));
    }
}

/// Cutting from the back takes a run of `.` and `/` and stops at the last
/// other character.
proof fn lemma_trim_end(s: Seq<char>, to: int)
    requires
        0 <= to <= s.len(),
        forall|k: int| to <= k < s.len() ==> is_path_char(#[trigger] s[k]),
        0 < to ==> !is_path_char(s[to - 1]),
    ensures
        trim_end(s) == s.subrange(0, to),
    decreases s.len() - to,
{
    if to == s.len() {
        assert(s.subrange(0, to) =~= s);
    } else {
        assert(is_path_char(s[s.len() - 1]));
        let rest = s.drop_last();
        assert forall|k: int| to <= k < rest.len() implies is_path_char(#[trigger] rest[k]) by {
            assert(rest[k] == s[k]);
        }
        lemma_trim_end(rest, to);
        assert(rest.subrange(0, to) =~= s.subrange(0, to));
    }
}

/// Cuts `.` and `/` from both ends of a requested name, so that the name
/// cannot begin by climbing out of the template directory.
pub fn sanitize_name(name: &str) -> (clean: String)
    ensures
        clean@ == sanitized(name@),
{
    let chars = chars_of(name);
    let len = chars.len();
    let mut from: usize = 0;
    while from < len && (chars[from] == '.' || chars[from] == '/')
        invariant
            len == chars.len(),
            from <= len,
            forall|k: int| 0 <= k < from ==> is_path_char(#[trigger] chars@[k]),
        decreases len - from,
    {
        from += 1;
    }
    let mut to: usize = len;
    while to > from && (chars[to - 1] == '.' || chars[to - 1] == '/')
        invariant
            len == chars.len(),
            from <= to <= len,
            forall|k: int| to <= k < len ==> is_path_char(#[trigger] chars@[k]),
        decreases to,
    {
        to -= 1;
    }
    proof {
        let front = name@.subrange(from as int, len as int);
        lemma_trim_start(name@, from as int);
        assert forall|k: int| to - from <= k < front.len() implies is_path_char(
            #[trigger] front[k],
        ) by {
            assert(front[k] == chars@[k + from]);
        }
        if to > from {
            assert(front[to - from - 1] == chars@[to - 1]);
        }
        lemma_trim_end(front, to - from);
        assert(front.subrange(0, to - from) =~= name@.subrange(from as int, to as int));
    }
    name.substring_char(from, to).to_owned()
}

/// The extension of a template file.
pub open spec fn extension() -> Seq<char> {
    seq!['.', 'j', 's', 'o', 'n']
}

/// Whether `name` can be the name of a file: it holds no `/`.
pub open spec fn is_file_name(name: Seq<char>) -> bool {
    forall|k: int| 0 <= k < name.len() ==> #[trigger] name[k] != '/'
}

/// The path of the template called `name` in the directory `dir`.
pub open spec fn path_of(dir: Seq<char>, name: Seq<char>) -> Seq<char> {
    dir + seq!['/'] + name + extension()
}

/// The file to read for a requested name, if there is one to read: the name
/// is sanitized first, and a name that still holds a `/` names no template.
pub open spec fn template_file_of(dir: Seq<char>, name: Seq<char>) -> Option<Seq<char>> {
    if is_file_name(sanitized(name)) {
        Some(path_of(dir, sanitized(name)))
    } else {
        None
    }
}

/// Whether `path` is a file directly inside `dir`: the directory, one `/`,
/// and a file name.
pub open spec fn is_child_of(path: Seq<char>, dir: Seq<char>) -> bool {
    exists|leaf: Seq<char>|
        #![trigger is_file_name(leaf)]
        path == dir + seq!['/'] + leaf && leaf.len() > 0 && is_file_name(leaf) && leaf != seq!['.']
            && leaf != seq!['.', '.']
}

/// Whether `chars` holds no `/`.
fn holds_no_slash(chars: &Vec<char>) -> (plain: bool)
    ensures
        plain == is_file_name(chars@),
{
    let mut i: usize = 0;
    while i < chars.len()
        invariant
            i <= chars.len(),
            forall|k: int| 0 <= k < i ==> #[trigger] chars@[k] != '/',
        decreases chars.len() - i,
    {
        if chars[i] == '/' {
            return false;
        }
        i += 1;
    }
    true
}

/// Joins the directory and a template's name into the path of its file:
/// `<dir>/<name>.json`.
pub fn template_path(dir: &str, name: &str) -> (path: String)
    ensures
        path@ == path_of(dir@, name@),
{
    proof {
        reveal_strlit("/");
        reveal_strlit(".json");
        assert("/"@ =~= seq!['/']);
        assert(".json"@ =~= extension());
    }
    dir.to_owned().concat("/").concat(name).concat(".json")
}

/// Says which file holds the template that a request names, or `None` where
/// the request names no template.
///
/// The name is sanitized, and the answer is `None` exactly when a `/` is
/// left inside it. Any path handed out is therefore a file directly inside
/// `dir`, whatever the request was.
pub fn template_file(dir: &str, name: &str) -> (file: Option<String>)
    ensures
        match file {
            Some(path) => template_file_of(dir@, name@) == Some(path@),
            None => template_file_of(dir@, name@) is None,
        },
{
    let clean = sanitize_name(name);
    let chars = chars_of(clean.as_str());
    if holds_no_slash(&chars) {
        Some(template_path(dir, clean.as_str()))
    } else {
        None
    }
}

/// The place of the last `.` in `s`, or -1 where `s` holds none.
pub open spec fn last_dot(s: Seq<char>) -> int
    decreases s.len(),
{
    if s.len() == 0 {
        -1
    } else if s.last() == '.' {
        s.len() - 1
    } else {
        last_dot(s.drop_last())
    }
}

/// A file's name without its extension: what stands before the last `.`,
/// or the whole name where it holds no `.`.
pub open spec fn stem(file_name: Seq<char>) -> Seq<char> {
    if last_dot(file_name) >= 0 {
        file_name.take(last_dot(file_name))
    } else {
        file_name
    }
}

/// The extension that `stem` cuts from a file's name: the last `.` and what
/// follows it, or nothing where the name holds no `.`.
pub open spec fn cut_extension(file_name: Seq<char>) -> Seq<char> {
    if last_dot(file_name) >= 0 {
        file_name.skip(last_dot(file_name))
    } else {
        Seq::empty()
    }
}

/// Where no `.` stands from `from` on, the last `.` is that of the part
/// before `from`.
proof fn lemma_last_dot(s: Seq<char>, from: int)
    requires
        0 <= from <= s.len(),
        forall|k: int| from <= k < s.len() ==> #[trigger] s[k] != '.',
    ensures
        last_dot(s) == last_dot(s.take(from)),
        -1 <= last_dot(s) < from,
        last_dot(s) >= 0 ==> s[last_dot(s)] == '.',
    decreases s.len(),
{
    if from == s.len() {
        assert(s.take(from) =~= s);
        if s.len() > 0 && s.last() != '.' {
            let front = s.drop_last();
            assert forall|k: int| front.len() <= k < front.len() implies #[trigger] front[k]
                != '.' by {}
            lemma_last_dot(front, front.len() as int);
            if last_dot(front) >= 0 {
                assert(front[last_dot(front)] == s[last_dot(front)]);
            }
        }
    } else {
        let front = s.drop_last();
        assert(s.last() == s[s.len() - 1]);
        assert forall|k: int| from <= k < front.len() implies #[trigger] front[k] != '.' by {
            assert(front[k] == s[k]);
        }
        lemma_last_dot(front, from);
        assert(front.take(from) =~= s.take(from));
        if last_dot(front) >= 0 {
            assert(front[last_dot(front)] == s[last_dot(front)]);
        }
    }
}

/// The name of the template that the file called `file_name` holds: the
/// file's name without its extension.
pub fn template_name(file_name: &str) -> (name: String)
    ensures
        name@ == stem(file_name@),
{
    let chars = chars_of(file_name);
    let mut end: usize = chars.len();
    while end > 0 && chars[end - 1] != '.'
        invariant
            end <= chars.len(),
            forall|k: int| end <= k < chars.len() ==> #[trigger] chars@[k] != '.',
        decreases end,
    {
        end -= 1;
    }
    proof {
        lemma_last_dot(chars@, end as int);
        if end > 0 {
            assert(chars@.take(end as int).last() == chars@[end - 1]);
        } else {
            assert(chars@.take(0).len() == 0);
        }
    }
    if end == 0 {
        file_name.to_owned()
    } else {
        assert(file_name@.subrange(0, end - 1) =~= file_name@.take(end - 1));
        file_name.substring_char(0, end - 1).to_owned()
    }
}

/// How many `.` and `/` stand at the front of `s`.
spec fn leading(s: Seq<char>) -> int
    decreases s.len(),
{
    if s.len() > 0 && is_path_char(s[0]) {
        1 + leading(s.drop_first())
    } else {
        0
    }
}

/// How many `.` and `/` stand at the back of `s`.
spec fn trailing(s: Seq<char>) -> int
    decreases s.len(),
{
    if s.len() > 0 && is_path_char(s.last()) {
        1 + trailing(s.drop_last())
    } else {
        0
    }
}

/// `trim_start` cuts exactly the leading run of `.` and `/`.
proof fn lemma_leading(s: Seq<char>)
    ensures
        0 <= leading(s) <= s.len(),
        forall|k: int| 0 <= k < leading(s) ==> is_path_char(#[trigger] s[k]),
        leading(s) < s.len() ==> !is_path_char(s[leading(s)]),
        trim_start(s) == s.subrange(leading(s), s.len() as int),
    decreases s.len(),
{
    if s.len() > 0 && is_path_char(s[0]) {
        let rest = s.drop_first();
        lemma_leading(rest);
        assert forall|k: int| 0 <= k < leading(s) implies is_path_char(#[trigger] s[k]) by {
            if k > 0 {
                assert(s[k] == rest[k - 1]);
            }
        }
        if leading(s) < s.len() {
            assert(s[leading(s)] == rest[leading(rest)]);
        }
    }
    lemma_trim_start(s, leading(s));
}

/// `trim_end` cuts exactly the trailing run of `.` and `/`.
proof fn lemma_trailing(s: Seq<char>)
    ensures
        0 <= trailing(s) <= s.len(),
        forall|k: int| s.len() - trailing(s) <= k < s.len() ==> is_path_char(#[trigger] s[k]),
        trailing(s) < s.len() ==> !is_path_char(s[s.len() - trailing(s) - 1]),
        trim_end(s) == s.subrange(0, s.len() - trailing(s)),
    decreases s.len(),
{
    if s.len() > 0 && is_path_char(s.last()) {
        let rest = s.drop_last();
        lemma_trailing(rest);
        assert forall|k: int| s.len() - trailing(s) <= k < s.len() implies is_path_char(
            #[trigger] s[k],
        ) by {
            if k < s.len() - 1 {
                assert(s[k] == rest[k]);
            }
        }
        if trailing(s) < s.len() {
            assert(s[s.len() - trailing(s) - 1] == rest[rest.len() - trailing(rest) - 1]);
        }
    }
    lemma_trim_end(s, s.len() - trailing(s));
}

/// A sanitized name neither begins nor ends with `.` or `/`, and it is a
/// piece of the requested name: nothing is added and nothing inside it is
/// changed.
pub proof fn lemma_sanitized_shape(name: Seq<char>)
    ensures
        sanitized(name).len() > 0 ==> !is_path_char(sanitized(name).first()) && !is_path_char(
            sanitized(name).last(),
        ),
        exists|from: int, to: int|
            0 <= from <= to <= name.len() && #[trigger] name.subrange(from, to) == sanitized(name),
{
    let front = trim_start(name);
    lemma_leading(name);
    lemma_trailing(front);
    let from = leading(name);
    let to = name.len() - trailing(front);
    assert(front.subrange(0, front.len() - trailing(front)) =~= name.subrange(from, to));
    if sanitized(name).len() > 0 {
        assert(sanitized(name).last() == front[front.len() - trailing(front) - 1]);
        assert(sanitized(name).first() == front[0]);
        assert(front[0] == name[from]);
    }
}

/// Sanitizing twice changes nothing more: a request for the sanitized name
/// is a request for the same template.
pub proof fn lemma_sanitized_idempotent(name: Seq<char>)
    ensures
        sanitized(sanitized(name)) == sanitized(name),
{
    let clean = sanitized(name);
    lemma_sanitized_shape(name);
    lemma_trim_start(clean, 0);
    lemma_trim_end(clean, clean.len() as int);
    assert(clean.subrange(0, clean.len() as int) =~= clean);
}

/// No request reaches outside the template directory: whatever the
/// requested name, the file to read, if there is one, lies directly inside
/// `dir`.
pub proof fn lemma_template_file_inside(dir: Seq<char>, name: Seq<char>)
    ensures
        template_file_of(dir, name) matches Some(path) ==> is_child_of(path, dir),
{
    if is_file_name(sanitized(name)) {
        let leaf = sanitized(name) + extension();
        let path = path_of(dir, sanitized(name));
        assert(path =~= dir + seq!['/'] + leaf);
        assert(leaf.len() >= 5);
        assert forall|k: int| 0 <= k < leaf.len() implies #[trigger] leaf[k] != '/' by {
            if k < sanitized(name).len() {
                assert(leaf[k] == sanitized(name)[k]);
            } else {
                assert(leaf[k] == extension()[k - sanitized(name).len()]);
            }
        }
        assert(is_file_name(leaf));
        assert(seq!['.'].len() == 1);
        assert(seq!['.', '.'].len() == 2);
    }
}

/// Two requests whose names sanitize alike are answered from the same
/// file.
pub proof fn lemma_template_file_by_sanitized(dir: Seq<char>, a: Seq<char>, b: Seq<char>)
    requires
        sanitized(a) == sanitized(b),
    ensures
        template_file_of(dir, a) == template_file_of(dir, b),
{
}

/// `name` with every `.` and `/` taken out, wherever it stands.
pub open spec fn without_path_chars(name: Seq<char>) -> Seq<char> {
    name.filter(is_name_char())
}

/// The test that every character but `.` and `/` passes.
pub open spec fn is_name_char() -> spec_fn(char) -> bool {
    |c: char| !is_path_char(c)
}

/// Filtering keeps nothing where no character passes, and everything where
/// every character does.
proof fn lemma_filter_uniform(s: Seq<char>, pred: spec_fn(char) -> bool)
    ensures
        (forall|k: int| 0 <= k < s.len() ==> !pred(#[trigger] s[k])) ==> s.filter(pred)
            == Seq::<char>::empty(),
        (forall|k: int| 0 <= k < s.len() ==> pred(#[trigger] s[k])) ==> s.filter(pred) == s,
    decreases s.len(),
{
    reveal(Seq::filter);
    if s.len() > 0 {
        let front = s.drop_last();
        lemma_filter_uniform(front, pred);
        if forall|k: int| 0 <= k < s.len() ==> !pred(#[trigger] s[k]) {
            assert forall|k: int| 0 <= k < front.len() implies !pred(#[trigger] front[k]) by {
                assert(front[k] == s[k]);
            }
            assert(!pred(s[s.len() - 1]));
        }
        if forall|k: int| 0 <= k < s.len() ==> pred(#[trigger] s[k]) {
            assert forall|k: int| 0 <= k < front.len() implies pred(#[trigger] front[k]) by {
                assert(front[k] == s[k]);
            }
            assert(pred(s[s.len() - 1]));
            assert(front.push(s.last()) =~= s);
        }
    } else {
        assert(s =~= Seq::<char>::empty());
    }
}

/// Where cutting the ends leaves no `.` and no `/` behind, sanitizing a
/// name is the same as taking every `.` and `/` out of it: the request is
/// answered as the request for the bare name is.
pub proof fn lemma_sanitized_removes_all(name: Seq<char>)
    requires
        forall|k: int| 0 <= k < sanitized(name).len() ==> !is_path_char(#[trigger] sanitized(name)[k]),
    ensures
        sanitized(name) == without_path_chars(name),
        sanitized(without_path_chars(name)) == sanitized(name),
{
    let keep = is_name_char();
    let front = trim_start(name);
    lemma_leading(name);
    lemma_trailing(front);
    let from = leading(name);
    let to = name.len() - trailing(front);
    let head = name.subrange(0, from);
    let mid = name.subrange(from, to);
    let tail = name.subrange(to, name.len() as int);
    assert(front.subrange(0, front.len() - trailing(front)) =~= mid);
    assert(mid == sanitized(name));
    assert(name =~= head + mid + tail);
    assert forall|k: int| 0 <= k < head.len() implies !keep(#[trigger] head[k]) by {
        assert(head[k] == name[k]);
    }
    assert forall|k: int| 0 <= k < mid.len() implies keep(#[trigger] mid[k]) by {
        assert(!is_path_char(sanitized(name)[k]));
    }
    assert forall|k: int| 0 <= k < tail.len() implies !keep(#[trigger] tail[k]) by {
        assert(tail[k] == front[k + to - from]);
    }
    lemma_filter_uniform(head, keep);
    lemma_filter_uniform(mid, keep);
    lemma_filter_uniform(tail, keep);
    Seq::filter_distributes_over_add(head, mid, keep);
    Seq::filter_distributes_over_add(head + mid, tail, keep);
    assert(Seq::<char>::empty() + mid + Seq::<char>::empty() =~= mid);
    assert(name.filter(keep) == mid);
    lemma_sanitized_idempotent(name);
}

/// Nothing of the file's name is lost or changed: the stem and the
/// extension that was cut make up the name again, and the extension is
/// either nothing or one `.` and a run of characters without a `.`.
pub proof fn lemma_stem_and_extension(file_name: Seq<char>)
    ensures
        stem(file_name) + cut_extension(file_name) == file_name,
        cut_extension(file_name).len() == 0 || cut_extension(file_name)[0] == '.',
        forall|k: int|
            1 <= k < cut_extension(file_name).len() ==> #[trigger] cut_extension(file_name)[k]
                != '.',
{
    lemma_last_dot(file_name, file_name.len() as int);
    lemma_after_last_dot(file_name);
    let at = last_dot(file_name);
    if at >= 0 {
        assert(file_name.take(at) + file_name.skip(at) =~= file_name);
    } else {
        assert(file_name + Seq::<char>::empty() =~= file_name);
    }
}

/// No `.` stands behind the last one.
proof fn lemma_after_last_dot(s: Seq<char>)
    ensures
        forall|k: int| last_dot(s) < k < s.len() ==> #[trigger] s[k] != '.',
    decreases s.len(),
{
    lemma_last_dot(s, s.len() as int);
    if s.len() > 0 && s.last() != '.' {
        let front = s.drop_last();
        lemma_after_last_dot(front);
        assert forall|k: int| last_dot(s) < k < s.len() implies #[trigger] s[k] != '.' by {
            if k < front.len() {
                assert(front[k] == s[k]);
            }
        }
    }
}

/// The name of a template carries no extension of its file: a `.` stands
/// in the stem only where the file's name holds a `.` before its last one.
/// The stem of a name with one `.` holds none.
pub proof fn lemma_stem_has_no_extension(file_name: Seq<char>)
    ensures
        forall|k: int|
            0 <= k < stem(file_name).len() && #[trigger] stem(file_name)[k] == '.' ==> k
                < last_dot(file_name) && file_name[k] == '.',
{
    lemma_last_dot(file_name, file_name.len() as int);
    lemma_after_last_dot(file_name);
}

/// The name of a template is found again in its file's name: every name is
/// the stem of `<name>.json`, the file that `template_path` points to.
pub proof fn lemma_stem_of_template_file(name: Seq<char>)
    ensures
        stem(name + extension()) == name,
        cut_extension(name + extension()) == extension(),
{
    let file = name + extension();
    assert forall|k: int| name.len() + 1 <= k < file.len() implies #[trigger] file[k] != '.' by {
        assert(file[k] == extension()[k - name.len()]);
    }
    let dot = name.len() as int;
    lemma_last_dot(file, dot + 1);
    assert(file.take(dot + 1).last() == extension()[0]);
    assert(last_dot(file) == name.len());
    assert(file.take(name.len() as int) =~= name);
    assert(file.skip(name.len() as int) =~= extension());
}

/// What a manifest declares of its workload: the name it will run under,
/// and the version and description that the catalog shows.
#[derive(Clone, Debug, PartialEq, Eq)]
pub struct Metadata {
    pub name: String,
    pub version: String,
    pub description: String,
}

/// A `Metadata` as plain sequences of characters.
pub struct MetadataView {
    pub name: Seq<char>,
    pub version: Seq<char>,
    pub description: Seq<char>,
}

impl View for Metadata {
    type V = MetadataView;

    open spec fn view(&self) -> MetadataView {
        MetadataView { name: self.name@, version: self.version@, description: self.description@ }
    }
}

/// A workload that can be started: its name, the manifest to hand to the
/// cluster, and the version and description that the manifest declares,
/// each empty where the manifest declares none.
#[derive(Clone, Debug, PartialEq, Eq)]
pub struct Template {
    pub name: String,
    pub manifest: String,
    pub version: String,
    pub description: String,
}

/// A `Template` as plain sequences of characters.
pub struct TemplateView {
    pub name: Seq<char>,
    pub manifest: Seq<char>,
    pub version: Seq<char>,
    pub description: Seq<char>,
}

impl View for Template {
    type V = TemplateView;

    open spec fn view(&self) -> TemplateView {
        TemplateView {
            name: self.name@,
            manifest: self.manifest@,
            version: self.version@,
            description: self.description@,
        }
    }
}

/// Where a manifest keeps the name of its workload.
pub open spec fn name_pointer() -> Seq<char> {
    "/metadata/name"@
}

/// Where a manifest keeps the version of its workload.
pub open spec fn version_pointer() -> Seq<char> {
    "/metadata/annotations/version"@
}

/// Where a manifest keeps the description of its workload.
pub open spec fn description_pointer() -> Seq<char> {
    "/metadata/annotations/description"@
}

/// The metadata of a document, given the strings that it holds: all three
/// of name, version and description, or nothing.
pub open spec fn metadata_of(strings: Map<Seq<char>, Seq<char>>) -> Option<MetadataView> {
    if strings.contains_key(name_pointer()) && strings.contains_key(version_pointer())
        && strings.contains_key(description_pointer()) {
        Some(
            MetadataView {
                name: strings[name_pointer()],
                version: strings[version_pointer()],
                description: strings[description_pointer()],
            },
        )
    } else {
        None
    }
}

/// The metadata that the text of a manifest declares, or `None` where the
/// text is not JSON or lacks one of the three strings.
pub open spec fn manifest_metadata(text: Seq<char>) -> Option<MetadataView> {
    match json_text_strings(text) {
        Some(strings) => metadata_of(strings),
        None => None,
    }
}

/// Reads the metadata out of a parsed manifest.
///
/// The three strings are required: a manifest without a name, a version or
/// a description is a defect of the template, and the answer is `None`
/// rather than a default.
pub fn metadata_from(doc: &serde_json::Value) -> (metadata: Option<Metadata>)
    ensures
        match metadata {
            Some(m) => metadata_of(json_strings(*doc)) == Some(m@),
            None => metadata_of(json_strings(*doc)) is None,
        },
{
    let name = string_at(doc, "/metadata/name");
    let version = string_at(doc, "/metadata/annotations/version");
    let description = string_at(doc, "/metadata/annotations/description");
    match (name, version, description) {
        (Some(name), Some(version), Some(description)) => Some(
            Metadata { name, version, description },
        ),
        _ => None,
    }
}

/// Parses the text of a manifest and reads its metadata.
///
/// `None` where the text is not JSON, or where the name, the version or the
/// description is missing or not a string.
pub fn get_pod_metadata(template: &str) -> (metadata: Option<Metadata>)
    ensures
        match metadata {
            Some(m) => manifest_metadata(template@) == Some(m@),
            None => manifest_metadata(template@) is None,
        },
{
    match parse_document(template) {
        Ok(doc) => metadata_from(&doc),
        Err(_) => None,
    }
}

/// The string that the text of a manifest holds at `pointer`, or `None`
/// where the text is not JSON or holds no string there.
pub open spec fn manifest_string(text: Seq<char>, pointer: Seq<char>) -> Option<Seq<char>> {
    match json_text_strings(text) {
        Some(strings) => if strings.contains_key(pointer) {
            Some(strings[pointer])
        } else {
            None
        },
        None => None,
    }
}

/// A text that may be missing, as a text: the empty one where it is
/// missing.
pub open spec fn or_empty(text: Option<Seq<char>>) -> Seq<char> {
    match text {
        Some(found) => found,
        None => Seq::empty(),
    }
}

/// Whether the text reads as the manifest of a pod.
pub fn is_pod(text: &str) -> (reads: bool)
    ensures
        reads == is_pod_text(text@),
{
    match parse_pod(text) {
        Ok(_) => true,
        Err(_) => false,
    }
}

/// Reads the version and the description that the text of a manifest
/// declares, each where it is there and a string.
pub fn read_annotations(text: &str) -> (found: (Option<String>, Option<String>))
    ensures
        match found.0 {
            Some(version) => manifest_string(text@, version_pointer()) == Some(version@),
            None => manifest_string(text@, version_pointer()) is None,
        },
        match found.1 {
            Some(description) => manifest_string(text@, description_pointer()) == Some(
                description@,
            ),
            None => manifest_string(text@, description_pointer()) is None,
        },
{
    match parse_document(text) {
        Ok(doc) => (
            string_at(&doc, "/metadata/annotations/version"),
            string_at(&doc, "/metadata/annotations/description"),
        ),
        Err(_) => (None, None),
    }
}

/// The text, or the empty text where there is none.
fn text_or_empty(text: Option<String>) -> (found: String)
    ensures
        found@ == or_empty(
            match text {
                Some(t) => Some(t@),
                None => None,
            },
        ),
{
    match text {
        Some(found) => found,
        None => String::new(),
    }
}

/// What came of reading a template's file.
#[derive(Clone, Debug, PartialEq, Eq)]
pub enum Reading {
    /// The file's text.
    Text(String),
    /// There is no such file.
    Missing,
    /// The file is there, and could not be read.
    Unreadable,
}

/// A `Reading` with its text as a plain sequence of characters.
pub enum ReadingView {
    Text(Seq<char>),
    Missing,
    Unreadable,
}

impl View for Reading {
    type V = ReadingView;

    open spec fn view(&self) -> ReadingView {
        match self {
            Reading::Text(text) => ReadingView::Text(text@),
            Reading::Missing => ReadingView::Missing,
            Reading::Unreadable => ReadingView::Unreadable,
        }
    }
}

/// The text of the failure for a template that cannot be had.
pub open spec fn failure_text(name: Seq<char>) -> Seq<char> {
    "Failed to parse pod template: "@ + name
}

/// The failure for a template that cannot be had, naming the template and
/// nothing else.
pub(crate) fn template_failure(name: &str) -> (text: String)
    ensures
        text@ == failure_text(name@),
{
    "Failed to parse pod template: ".to_owned().concat(name)
}

/// What a request for a template comes to, given what came of reading its
/// file.
///
/// A name that is no file name, or that has no file, is the caller's
/// mistake. A file that cannot be read, or whose text does not read as a
/// pod, is the server's. Every failure carries the same text, which names
/// the sanitized name and nothing else. Every text that reads as a pod gives
/// a template: its version and description are those that the text
/// declares, and empty where it declares none.
pub open spec fn template_of(name: Seq<char>, content: ReadingView) -> Result<
    TemplateView,
    ZeusErrorView,
> {
    let clean = sanitized(name);
    if !is_file_name(clean) {
        Err(ZeusErrorView::ClientError(failure_text(clean)))
    } else {
        match content {
            ReadingView::Missing => Err(ZeusErrorView::ClientError(failure_text(clean))),
            ReadingView::Unreadable => Err(ZeusErrorView::ServerError(failure_text(clean))),
            ReadingView::Text(text) => if is_pod_text(text) {
                Ok(
                    TemplateView {
                        name: clean,
                        manifest: text,
                        version: or_empty(manifest_string(text, version_pointer())),
                        description: or_empty(manifest_string(text, description_pointer())),
                    },
                )
            } else {
                Err(ZeusErrorView::ServerError(failure_text(clean)))
            },
        }
    }
}

/// Builds the template that a request names from what came of reading its
/// file.
///
/// `content` is what reading the file of `template_file` gave; where
/// `template_file` names no file, nothing is read and `content` is not
/// looked at.
pub fn get_template(name: &str, content: &Reading) -> (template: Result<Template, ZeusError>)
    ensures
        match template {
            Ok(t) => template_of(name@, content@) == Ok::<TemplateView, ZeusErrorView>(t@),
            Err(e) => template_of(name@, content@) == Err::<TemplateView, ZeusErrorView>(e@),
        },
{
    let clean = sanitize_name(name);
    let chars = chars_of(clean.as_str());
    if !holds_no_slash(&chars) {
        return Err(ZeusError::ClientError(template_failure(clean.as_str())));
    }
    match content {
        Reading::Missing => Err(ZeusError::ClientError(template_failure(clean.as_str()))),
        Reading::Unreadable => Err(
            ZeusError::from_upstream(Upstream::Io, template_failure(clean.as_str())),
        ),
        Reading::Text(text) => if is_pod(text.as_str()) {
            let (version, description) = read_annotations(text.as_str());
            Ok(
                Template {
                    name: clean,
                    manifest: text.clone(),
                    version: text_or_empty(version),
                    description: text_or_empty(description),
                },
            )
        } else {
            Err(ZeusError::from_upstream(Upstream::Parse, template_failure(clean.as_str())))
        },
    }
}

/// One entry of the template directory: its name, and whether it is a
/// regular file.
#[derive(Clone, Debug, PartialEq, Eq)]
pub struct DirEntry {
    pub name: String,
    pub regular: bool,
}

/// A `DirEntry` with its name as a plain sequence of characters.
pub struct DirEntryView {
    pub name: Seq<char>,
    pub regular: bool,
}

impl View for DirEntry {
    type V = DirEntryView;

    open spec fn view(&self) -> DirEntryView {
        DirEntryView { name: self.name@, regular: self.regular }
    }
}

/// The entries of a list, each by its view.
pub open spec fn entry_views(entries: Seq<DirEntry>) -> Seq<DirEntryView> {
    Seq::new(entries.len(), |i: int| entries[i]@)
}

/// The texts of a list, each as a plain sequence of characters.
pub open spec fn texts(list: Seq<String>) -> Seq<Seq<char>> {
    Seq::new(list.len(), |i: int| list[i]@)
}

/// The test that the regular files pass.
pub open spec fn is_regular() -> spec_fn(DirEntryView) -> bool {
    |entry: DirEntryView| entry.regular
}

/// The names of the regular files among the entries of a directory, in the
/// directory's order. Only these are templates.
pub open spec fn regular_names(entries: Seq<DirEntryView>) -> Seq<Seq<char>> {
    entries.filter(is_regular()).map_values(|entry: DirEntryView| entry.name)
}

/// Keeps the regular files of a directory: the names of the entries that
/// are regular files, in the directory's order.
pub fn regular_files(entries: &Vec<DirEntry>) -> (names: Vec<String>)
    ensures
        texts(names@) == regular_names(entry_views(entries@)),
{
    let ghost all = entry_views(entries@);
    let mut names: Vec<String> = Vec::new();
    let mut i: usize = 0;
    proof {
        reveal(Seq::filter);
        assert(all.take(0).filter(is_regular()) =~= Seq::<DirEntryView>::empty());
        assert(texts(names@) =~= regular_names(all.take(0)));
    }
    while i < entries.len()
        invariant
            i <= entries.len(),
            all == entry_views(entries@),
            texts(names@) == regular_names(all.take(i as int)),
        decreases entries.len() - i,
    {
        let entry = &entries[i];
        proof {
            reveal(Seq::filter);
            assert(all.take(i + 1).drop_last() =~= all.take(i as int));
            assert(all.take(i + 1).last() == entry@);
        }
        if entry.regular {
            let ghost before = texts(names@);
            names.push(entry.name.clone());
            assert(texts(names@) =~= before.push(entry.name@));
            assert(texts(names@) =~= regular_names(all.take(i + 1)));
        } else {
            assert(regular_names(all.take(i + 1)) =~= regular_names(all.take(i as int)));
        }
        i += 1;
    }
    assert(all.take(i as int) =~= all);
    names
}

/// Every listed name can be started: the name that `templates` lists for
/// the file `<name>.json` leads back to that file, and a text there that
/// reads as a pod gives a template, whatever else it holds.
pub proof fn lemma_listed_name_starts(dir: Seq<char>, name: Seq<char>, text: Seq<char>)
    requires
        sanitized(name) == name,
        is_file_name(name),
        is_pod_text(text),
    ensures
        stem(name + extension()) == name,
        template_file_of(dir, name) == Some(dir + seq!['/'] + (name + extension())),
        template_of(name, ReadingView::Text(text)) is Ok,
{
    lemma_stem_of_template_file(name);
    assert(path_of(dir, name) =~= dir + seq!['/'] + (name + extension()));
}

/// One file of the template directory: its name, and its text where the
/// file could be read.
#[derive(Clone, Debug, PartialEq, Eq)]
pub struct TemplateFile {
    pub name: String,
    pub content: Option<String>,
}

/// A `TemplateFile` as plain sequences of characters.
pub struct TemplateFileView {
    pub name: Seq<char>,
    pub content: Option<Seq<char>>,
}

impl View for TemplateFile {
    type V = TemplateFileView;

    open spec fn view(&self) -> TemplateFileView {
        TemplateFileView {
            name: self.name@,
            content: match self.content {
                Some(text) => Some(text@),
                None => None,
            },
        }
    }
}

/// The template that one file of the directory holds: named after the
/// file, with the file's text as its manifest. `None` where the file was not
/// read or its text lacks one of name, version and description.
///
/// The listing goes by the metadata alone: the three strings are required
/// here, because the catalog shows them, and the rest of the manifest is
/// not looked at.
pub open spec fn template_in(file: TemplateFileView) -> Option<TemplateView> {
    match file.content {
        Some(text) => match manifest_metadata(text) {
            Some(m) => Some(
                TemplateView {
                    name: stem(file.name),
                    manifest: text,
                    version: m.version,
                    description: m.description,
                },
            ),
            None => None,
        },
        None => None,
    }
}

/// The templates of a directory: one for each file, in the directory's
/// order, or the failure of the first file that holds none.
pub open spec fn templates_of(files: Seq<TemplateFileView>) -> Result<
    Seq<TemplateView>,
    ZeusErrorView,
>
    decreases files.len(),
{
    if files.len() == 0 {
        Ok(Seq::empty())
    } else {
        match templates_of(files.drop_last()) {
            Err(e) => Err(e),
            Ok(found) => match template_in(files.last()) {
                Some(template) => Ok(found.push(template)),
                None => Err(ZeusErrorView::ServerError(failure_text(stem(files.last().name)))),
            },
        }
    }
}

/// The files of a list, each by its view.
pub open spec fn file_views(files: Seq<TemplateFile>) -> Seq<TemplateFileView> {
    Seq::new(files.len(), |i: int| files[i]@)
}

/// The templates of a list, each by its view.
pub open spec fn template_views(templates: Seq<Template>) -> Seq<TemplateView> {
    Seq::new(templates.len(), |i: int| templates[i]@)
}

/// Builds the template that one file of the directory holds.
pub fn read_template(file: &TemplateFile) -> (template: Option<Template>)
    ensures
        match template {
            Some(t) => template_in(file@) == Some(t@),
            None => template_in(file@) is None,
        },
{
    match &file.content {
        Some(text) => match get_pod_metadata(text.as_str()) {
            Some(m) => Some(
                Template {
                    name: template_name(file.name.as_str()),
                    manifest: text.clone(),
                    version: m.version,
                    description: m.description,
                },
            ),
            None => None,
        },
        None => None,
    }
}

/// Once a file has failed the listing, the files behind it change nothing.
proof fn lemma_templates_failure_stays(files: Seq<TemplateFileView>, upto: int)
    requires
        0 <= upto <= files.len(),
        templates_of(files.take(upto)) is Err,
    ensures
        templates_of(files) == templates_of(files.take(upto)),
    decreases files.len() - upto,
{
    if upto == files.len() {
        assert(files.take(upto) =~= files);
    } else {
        assert(files.take(upto + 1).drop_last() =~= files.take(upto));
        lemma_templates_failure_stays(files, upto + 1);
    }
}

/// Lists the templates of the directory, given its files in the order in
/// which the directory lists them.
///
/// Every file must hold a template: a file that could not be read, or whose
/// text lacks the name, the version or the description, fails the whole
/// listing with a `ServerError` that names the template.
pub fn list_templates(files: &Vec<TemplateFile>) -> (listing: Result<Vec<Template>, ZeusError>)
    ensures
        match listing {
            Ok(found) => templates_of(file_views(files@)) == Ok::<Seq<TemplateView>, ZeusErrorView>(
                template_views(found@),
            ),
            Err(e) => templates_of(file_views(files@)) == Err::<Seq<TemplateView>, ZeusErrorView>(
                e@,
            ),
        },
{
    let ghost all = file_views(files@);
    let mut found: Vec<Template> = Vec::new();
    let mut i: usize = 0;
    assert(all.take(0) =~= Seq::<TemplateFileView>::empty());
    assert(template_views(found@) =~= Seq::<TemplateView>::empty());
    while i < files.len()
        invariant
            i <= files.len(),
            all == file_views(files@),
            templates_of(all.take(i as int)) == Ok::<Seq<TemplateView>, ZeusErrorView>(
                template_views(found@),
            ),
        decreases files.len() - i,
    {
        let file = &files[i];
        proof {
            assert(all.take(i + 1).drop_last() =~= all.take(i as int));
            assert(all.take(i + 1).last() == file@);
        }
        match read_template(file) {
            Some(template) => {
                let ghost before = template_views(found@);
                found.push(template);
                assert(template_views(found@) =~= before.push(template_in(file@)->0));
            },
            None => {
                let name = template_name(file.name.as_str());
                proof {
                    lemma_templates_failure_stays(all, i + 1);
                }
                return Err(
                    ZeusError::from_upstream(Upstream::Parse, template_failure(name.as_str())),
                );
            },
        }
        i += 1;
    }
    assert(all.take(i as int) =~= all);
    Ok(found)
}

/// The listing file by file: it is there exactly when every file holds a
/// template, and then holds those templates in the directory's order; a
/// failure is a `ServerError` that names the first file that held none.
pub proof fn lemma_templates_entries(files: Seq<TemplateFileView>)
    ensures
        templates_of(files) is Ok <==> forall|i: int|
            0 <= i < files.len() ==> template_in(#[trigger] files[i]) is Some,
        templates_of(files) matches Ok(found) ==> found.len() == files.len() && forall|i: int|
            0 <= i < files.len() ==> template_in(files[i]) == Some(#[trigger] found[i]),
        templates_of(files) matches Err(e) ==> exists|k: int|
            0 <= k < files.len() && template_in(#[trigger] files[k]) is None && e
                == ZeusErrorView::ServerError(failure_text(stem(files[k].name))) && forall|j: int|
                0 <= j < k ==> template_in(#[trigger] files[j]) is Some,
    decreases files.len(),
{
    if files.len() > 0 {
        let front = files.drop_last();
        let last = files.len() - 1;
        lemma_templates_entries(front);
        assert forall|i: int| 0 <= i < front.len() implies front[i] == files[i] by {}
        match templates_of(front) {
            Err(e) => {
                let k = choose|k: int|
                    0 <= k < front.len() && template_in(#[trigger] front[k]) is None && e
                        == ZeusErrorView::ServerError(failure_text(stem(front[k].name))) && forall|
                        j: int,
                    |
                        0 <= j < k ==> template_in(#[trigger] front[j]) is Some;
                assert(front[k] == files[k]);
                assert forall|j: int| 0 <= j < k implies template_in(#[trigger] files[j]) is Some by {
                    assert(front[j] == files[j]);
                }
            },
            Ok(found) => {
                assert forall|j: int| 0 <= j < last implies template_in(
                    #[trigger] files[j],
                ) is Some by {
                    assert(front[j] == files[j]);
                }
                assert(files[last] == files.last());
                if template_in(files.last()) is Some {
                    assert forall|i: int| 0 <= i < files.len() implies template_in(
                        #[trigger] files[i],
                    ) is Some by {
                        if i < last {
                            assert(front[i] == files[i]);
                        }
                    }
                }
            },
        }
    }
}

/// The names of the templates that a directory holds, given its entries in
/// the order in which the directory lists them.
///
/// Where the directory could not be read, `listing` is the reason, and the
/// answer is a `ServerError` with that reason. Otherwise each regular file
/// gives one name, in the directory's order: the file's name without its
/// extension.
pub fn templates(listing: Result<Vec<DirEntry>, String>) -> (names: Result<Vec<String>, ZeusError>)
    ensures
        match listing {
            Ok(entries) => names matches Ok(found) && found.len() == regular_names(
                entry_views(entries@),
            ).len() && forall|i: int|
                0 <= i < found.len() ==> (#[trigger] found[i])@ == stem(
                    regular_names(entry_views(entries@))[i],
                ),
            Err(reason) => names matches Err(e) && e@ == ZeusErrorView::ServerError(reason@),
        },
{
    match listing {
        Err(reason) => Err(ZeusError::from_upstream(Upstream::Io, reason)),
        Ok(entries) => {
            let files = regular_files(&entries);
            let mut found: Vec<String> = Vec::new();
            let mut i: usize = 0;
            while i < files.len()
                invariant
                    i <= files.len(),
                    found.len() == i,
                    texts(files@) == regular_names(entry_views(entries@)),
                    forall|k: int|
                        0 <= k < i ==> (#[trigger] found[k])@ == stem(
                            regular_names(entry_views(entries@))[k],
                        ),
                decreases files.len() - i,
            {
                assert(texts(files@)[i as int] == files[i as int]@);
                found.push(template_name(files[i].as_str()));
                i += 1;
            }
            assert(texts(files@).len() == files.len());
            Ok(found)
        },
    }
}

} // verus!
