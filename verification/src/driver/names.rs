//! Normalization of names given by users: project names, headless file
//! names, publish metadata, and small command-line vocabularies.

use vstd::prelude::*;
use crate::text::{
    ascii_lower_char, ascii_lowercase, ascii_lowercase_chars, chars_of, copy_str,
    is_ascii_alphanumeric, is_ascii_alphanumeric_char, push_char, str_eq, string_from_chars,
    strings_view, to_ascii_lower, trim, trim_ws, ends_with, ends_with_chars,
};
use crate::strset::{strictly_sorted, StrSet};

verus! {

/// State after reading `s`: the name built so far and whether the last
/// character read was a separator.
pub open spec fn sanitize_fold(s: Seq<char>) -> (Seq<char>, bool)
    decreases s.len(),
{
    if s.len() == 0 {
        (seq![], false)
    } else {
        let (out, last_sep) = sanitize_fold(s.drop_last());
        let ch = s.last();
        if is_ascii_alphanumeric_char(ch) {
            (out.push(ascii_lower_char(ch)), false)
        } else if last_sep {
            (out, true)
        } else {
            (out.push('-'), true)
        }
    }
}

/// `s` without leading and trailing `-`.
pub open spec fn trim_dashes(s: Seq<char>) -> Seq<char>
    decreases s.len(),
{
    if s.len() > 0 && s[0] == '-' {
        trim_dashes(s.skip(1))
    } else if s.len() > 0 && s.last() == '-' {
        trim_dashes(s.drop_last())
    } else {
        s
    }
}

/// Project name derived from `raw`: ASCII letters and digits lowered, every
/// run of other characters collapsed into one `-`, no `-` at either end,
/// and `agam-app` when nothing is left.
pub open spec fn sanitized_project_name(raw: Seq<char>) -> Seq<char> {
    let t = trim_dashes(sanitize_fold(raw).0);
    if t.len() == 0 {
        "agam-app"@
    } else {
        t
    }
}

fn trim_dashes_exec(v: &Vec<char>) -> (r: Vec<char>)
    ensures
        r@ == trim_dashes(v@),
{
    let mut start: usize = 0;
    let mut end: usize = v.len();
    assert(v@.subrange(0, v.len() as int) =~= v@);
    while start < end && v[start] == '-'
        invariant
            start <= end == v.len(),
            trim_dashes(v@) == trim_dashes(v@.subrange(start as int, end as int)),
        decreases end - start,
    {
        assert(v@.subrange(start as int, end as int).skip(1) =~= v@.subrange(start + 1, end as int));
        start += 1;
    }
    while start < end && v[end - 1] == '-'
        invariant
            start <= end <= v.len(),
            trim_dashes(v@) == trim_dashes(v@.subrange(start as int, end as int)),
            start < end ==> v@[start as int] != '-',
        decreases end - start,
    {
        assert(v@.subrange(start as int, end as int).drop_last() =~= v@.subrange(
            start as int,
            end - 1,
        ));
        end -= 1;
    }
    crate::text::chars_range(v, start, end)
}

/// Normalize a raw project name into a package-friendly identifier.
pub fn sanitize_project_name(raw: &str) -> (r: String)
    ensures
        r@ == sanitized_project_name(raw@),
{
    let v = chars_of(raw);
    let mut out: Vec<char> = Vec::new();
    let mut last_was_sep = false;
    let mut i: usize = 0;
    assert(v@.take(0) =~= Seq::<char>::empty());
    while i < v.len()
        invariant
            i <= v.len(),
            v@ == raw@,
            (out@, last_was_sep) == sanitize_fold(v@.take(i as int)),
        decreases v.len() - i,
    {
        assert(v@.take(i + 1).drop_last() =~= v@.take(i as int));
        let ch = v[i];
        if is_ascii_alphanumeric(ch) {
            last_was_sep = false;
            out.push(to_ascii_lower(ch));
        } else if !last_was_sep {
            last_was_sep = true;
            out.push('-');
        }
        i += 1;
    }
    assert(v@.take(v.len() as int) =~= v@);
    let t = trim_dashes_exec(&out);
    if t.len() == 0 {
        copy_str("agam-app")
    } else {
        string_from_chars(&t)
    }
}

pub open spec fn is_name_char(c: char) -> bool {
    let u = c as u32;
    (0x30 <= u && u <= 0x39) || (0x61 <= u && u <= 0x7a) || c == '-'
}

proof fn lemma_sanitize_fold_shape(s: Seq<char>)
    ensures
        forall|i: int| 0 <= i < sanitize_fold(s).0.len() ==> is_name_char(#[trigger] sanitize_fold(s).0[i]),
        forall|i: int|
            0 <= i < sanitize_fold(s).0.len() - 1 ==> !(#[trigger] sanitize_fold(s).0[i] == '-'
                && sanitize_fold(s).0[i + 1] == '-'),
        sanitize_fold(s).1 <==> (sanitize_fold(s).0.len() > 0 && sanitize_fold(s).0.last() == '-'),
    decreases s.len(),
{
    if s.len() > 0 {
        lemma_sanitize_fold_shape(s.drop_last());
        let (out, last_sep) = sanitize_fold(s.drop_last());
        let ch = s.last();
        if is_ascii_alphanumeric_char(ch) {
            let c = ascii_lower_char(ch);
            assert(is_name_char(c)) by {
                let u = ch as u32;
                if 0x41 <= u && u <= 0x5a {
                    assert(((u + 32) as u8) as char as u32 == u + 32);
                }
            }
            assert(c != '-');
        }
    }
}

spec fn dash_offset(s: Seq<char>) -> int
    decreases s.len(),
{
    if s.len() > 0 && s[0] == '-' {
        1 + dash_offset(s.skip(1))
    } else if s.len() > 0 && s.last() == '-' {
        dash_offset(s.drop_last())
    } else {
        0
    }
}

proof fn lemma_trim_dashes_shape(s: Seq<char>)
    ensures
        0 <= dash_offset(s),
        dash_offset(s) + trim_dashes(s).len() <= s.len(),
        trim_dashes(s) == s.subrange(dash_offset(s), dash_offset(s) + trim_dashes(s).len()),
        trim_dashes(s).len() > 0 ==> trim_dashes(s)[0] != '-' && trim_dashes(s).last() != '-',
    decreases s.len(),
{
    if s.len() > 0 && s[0] == '-' {
        let t = s.skip(1);
        lemma_trim_dashes_shape(t);
        let k = dash_offset(t);
        assert(t.subrange(k, k + trim_dashes(s).len()) =~= s.subrange(k + 1, k + 1 + trim_dashes(s).len()));
    } else if s.len() > 0 && s.last() == '-' {
        let t = s.drop_last();
        lemma_trim_dashes_shape(t);
        let k = dash_offset(t);
        assert(t.subrange(k, k + trim_dashes(s).len()) =~= s.subrange(k, k + trim_dashes(s).len()));
    } else {
        assert(s.subrange(0, s.len() as int) =~= s);
    }
}

/// Sanitized project names are never empty, hold only lower-case ASCII
/// letters, digits and `-`, never start or end with `-`, and never hold
/// two `-` in a row.
pub proof fn lemma_sanitized_project_name_shape(raw: Seq<char>)
    ensures
        sanitized_project_name(raw).len() > 0,
        forall|i: int| 0 <= i < sanitized_project_name(raw).len() ==> is_name_char(#[trigger] sanitized_project_name(raw)[i]),
        sanitized_project_name(raw)[0] != '-',
        sanitized_project_name(raw).last() != '-',
        forall|i: int|
            0 <= i < sanitized_project_name(raw).len() - 1 ==> !(#[trigger] sanitized_project_name(raw)[i] == '-'
                && sanitized_project_name(raw)[i + 1] == '-'),
{
    let f = sanitize_fold(raw).0;
    lemma_sanitize_fold_shape(raw);
    lemma_trim_dashes_shape(f);
    let t = trim_dashes(f);
    if t.len() == 0 {
        reveal_strlit("agam-app");
        let r = sanitized_project_name(raw);
        assert forall|i: int| 0 <= i < r.len() implies is_name_char(#[trigger] r[i]) by {}
    } else {
        let k = dash_offset(f);
        assert forall|i: int| 0 <= i < t.len() implies is_name_char(#[trigger] t[i]) by {
            assert(t[i] == f[k + i]);
        }
        assert forall|i: int| 0 <= i < t.len() - 1 implies !(#[trigger] t[i] == '-' && t[i + 1] == '-') by {
            assert(t[i] == f[k + i]);
            assert(t[i + 1] == f[k + i + 1]);
        }
    }
}

} // verus!

verus! {


pub open spec fn is_separator(c: char) -> bool {
    c == '/' || c == '\\'
}

/// Text after the last `/` or `\` once trailing separators are dropped.
pub open spec fn last_segment(s: Seq<char>) -> Seq<char>
    decreases s.len(),
{
    if s.len() == 0 {
        seq![]
    } else if is_separator(s.last()) {
        seq![]
    } else {
        last_segment(s.drop_last()).push(s.last())
    }
}

/// `s` without trailing separators and trailing `.` components (a `.`
/// right after a separator), as `Path::components` drops them.
pub open spec fn strip_trailing_components(s: Seq<char>) -> Seq<char>
    decreases s.len(),
{
    if s.len() > 0 && is_separator(s.last()) {
        strip_trailing_components(s.drop_last())
    } else if s.len() >= 2 && s.last() == '.' && is_separator(s[s.len() - 2]) {
        strip_trailing_components(s.drop_last())
    } else {
        s
    }
}

/// File name of a headless request: the last path segment of the trimmed
/// name (with `/` or `\` as separator, trailing `.` components dropped), or
/// `snippet.agam` when there is none.
pub open spec fn headless_base_name(filename: Seq<char>) -> Seq<char> {
    let seg = last_segment(strip_trailing_components(trim_ws(filename)));
    if seg.len() == 0 || seg == "."@ || seg == ".."@ {
        "snippet.agam"@
    } else {
        seg
    }
}

pub open spec fn headless_char(c: char) -> char {
    if is_ascii_alphanumeric_char(c) || c == '.' || c == '_' || c == '-' {
        c
    } else {
        '_'
    }
}

/// A safe file name for a headless request: one segment, characters other
/// than ASCII letters, digits, `.`, `_` and `-` replaced by `_`, ending in
/// `.agam`.
pub open spec fn sanitized_headless_filename(filename: Seq<char>) -> Seq<char> {
    let mapped = headless_base_name(filename).map_values(|c: char| headless_char(c));
    let named = if mapped.len() == 0 { "snippet.agam"@ } else { mapped };
    if ends_with(named, ".agam"@) {
        named
    } else {
        named + ".agam"@
    }
}

pub fn sanitize_headless_filename(filename: &str) -> (r: String)
    ensures
        r@ == sanitized_headless_filename(filename@),
{
    let trimmed = trim(filename);
    let v = chars_of(trimmed.as_str());
    let mut end = v.len();
    assert(v@.take(end as int) =~= v@);
    while end > 0 && (v[end - 1] == '/' || v[end - 1] == '\\' || end >= 2 && v[end - 1] == '.' && (
        v[end - 2] == '/' || v[end - 2] == '\\'))
        invariant
            end <= v.len(),
            strip_trailing_components(v@) == strip_trailing_components(v@.take(end as int)),
        decreases end,
    {
        assert(v@.take(end as int).drop_last() =~= v@.take(end - 1));
        end -= 1;
    }
    let ghost stripped = v@.take(end as int);
    assert(strip_trailing_components(stripped) == stripped);
    let mut start = end;
    assert(v@.subrange(start as int, end as int) =~= Seq::<char>::empty());
    while start > 0 && !(v[start - 1] == '/' || v[start - 1] == '\\')
        invariant
            start <= end <= v.len(),
            last_segment(stripped) == last_segment(v@.take(start as int)) + v@.subrange(
                start as int,
                end as int,
            ),
        decreases start,
    {
        assert(v@.take(start as int).drop_last() =~= v@.take(start - 1));
        assert(v@.subrange(start - 1, end as int) =~= seq![v@[start - 1]] + v@.subrange(
            start as int,
            end as int,
        ));
        assert(last_segment(v@.take(start as int)) == last_segment(v@.take(start - 1)).push(v@[start - 1]));
        start -= 1;
    }
    assert(last_segment(v@.take(start as int)) =~= Seq::<char>::empty());
    let seg = crate::text::chars_range(&v, start, end);
    assert(seg@ =~= last_segment(stripped));
    proof {
        reveal_strlit(".");
        reveal_strlit("..");
    }
    let is_dot = seg.len() == 1 && seg[0] == '.';
    let is_dotdot = seg.len() == 2 && seg[0] == '.' && seg[1] == '.';
    proof {
        if seg@ == "."@ {
            assert(seg@[0] == '.');
        }
        if seg@ == ".."@ {
            assert(seg@[0] == '.' && seg@[1] == '.');
        }
        if is_dot {
            assert(seg@ =~= "."@);
        }
        if is_dotdot {
            assert(seg@ =~= ".."@);
        }
    }
    let base = if seg.len() == 0 || is_dot || is_dotdot { chars_of("snippet.agam") } else { seg };
    let mut mapped: Vec<char> = Vec::new();
    let mut i: usize = 0;
    let ghost target = base@.map_values(|c: char| headless_char(c));
    while i < base.len()
        invariant
            i <= base.len(),
            target == base@.map_values(|c: char| headless_char(c)),
            mapped@ == target.take(i as int),
        decreases base.len() - i,
    {
        let ch = base[i];
        let m = if is_ascii_alphanumeric(ch) || ch == '.' || ch == '_' || ch == '-' { ch } else { '_' };
        mapped.push(m);
        assert(target.take(i + 1) =~= target.take(i as int).push(m));
        i += 1;
    }
    assert(target.take(base.len() as int) =~= target);
    let named = if mapped.len() == 0 { chars_of("snippet.agam") } else { mapped };
    let suffix = chars_of(".agam");
    let mut out = string_from_chars(&named);
    if !ends_with_chars(&named, &suffix) {
        out.append(".agam");
    }
    out
}

/// Starting source of a new project.
pub fn render_project_entry(project_name: &str) -> (r: String)
    ensures
        r@ == "@lang.advance\n\nfn main() -> i32 {\n    println(\"Hello from "@ + project_name@
            + "\");\n    return 0;\n}\n"@,
{
    let mut out = copy_str("@lang.advance\n\nfn main() -> i32 {\n    println(\"Hello from ");
    out.append(project_name);
    out.append("\");\n    return 0;\n}\n");
    out
}

/// Starting smoke test of a new project.
pub fn render_project_smoke_test() -> (r: String)
    ensures
        r@ == "@test\nfn arithmetic_is_sound() -> bool:\n    return (20 + 22) == 42\n"@,
{
    copy_str("@test\nfn arithmetic_is_sound() -> bool:\n    return (20 + 22) == 42\n")
}

/// Optional publish text: trimmed, and absent when blank.
pub fn normalize_publish_text(value: Option<&str>) -> (r: Option<String>)
    ensures
        match value {
            Some(v) => if trim_ws(v@).len() > 0 {
                r is Some && r->0@ == trim_ws(v@)
            } else {
                r is None
            },
            None => r is None,
        },
{
    match value {
        Some(v) => {
            let t = trim(v);
            if t.as_str().is_empty() {
                None
            } else {
                Some(t)
            }
        },
        None => None,
    }
}

/// The trimmed, non-blank entries of `owners`.
pub open spec fn owner_set(owners: Seq<String>) -> Set<Seq<char>> {
    Set::new(|o: Seq<char>| o.len() > 0 && exists|i: int| 0 <= i < owners.len() && #[trigger] trim_ws(owners[i]@) == o)
}

/// Publish owners: trimmed, blank ones dropped, duplicates removed, sorted.
pub fn normalize_publish_owners(owners: &Vec<String>) -> (r: Vec<String>)
    ensures
        strictly_sorted(strings_view(r@)),
        strings_view(r@).to_set() == owner_set(owners@),
{
    let mut set = StrSet::new();
    let mut i: usize = 0;
    while i < owners.len()
        invariant
            i <= owners@.len(),
            set.wf(),
            set.view().to_set() == owner_set(owners@.take(i as int)),
        decreases owners@.len() - i,
    {
        let t = trim(owners[i].as_str());
        let ghost before = set.view().to_set();
        let ghost tv = t@;
        if !t.as_str().is_empty() {
            set.insert(t);
            assert(owner_set(owners@.take(i + 1)) =~= before.insert(tv)) by {
                assert(owners@.take(i + 1)[i as int] == owners@[i as int]);
                assert forall|o: Seq<char>| #[trigger] before.insert(tv).contains(o) implies owner_set(owners@.take(i + 1)).contains(o) by {
                    if o != tv {
                        let j = choose|j: int| 0 <= j < i && #[trigger] trim_ws(owners@.take(i as int)[j]@) == o;
                        assert(owners@.take(i + 1)[j] == owners@.take(i as int)[j]);
                    }
                }
                assert forall|o: Seq<char>| #[trigger] owner_set(owners@.take(i + 1)).contains(o) implies before.insert(tv).contains(o) by {
                    let j = choose|j: int| 0 <= j < i + 1 && #[trigger] trim_ws(owners@.take(i + 1)[j]@) == o;
                    if j < i {
                        assert(owners@.take(i + 1)[j] == owners@.take(i as int)[j]);
                    }
                }
            }
        } else {
            assert(owner_set(owners@.take(i + 1)) =~= before) by {
                assert forall|o: Seq<char>| #[trigger] before.contains(o) implies owner_set(owners@.take(i + 1)).contains(o) by {
                    let j = choose|j: int| 0 <= j < i && #[trigger] trim_ws(owners@.take(i as int)[j]@) == o;
                    assert(owners@.take(i + 1)[j] == owners@.take(i as int)[j]);
                }
                assert forall|o: Seq<char>| #[trigger] owner_set(owners@.take(i + 1)).contains(o) implies before.contains(o) by {
                    let j = choose|j: int| 0 <= j < i + 1 && #[trigger] trim_ws(owners@.take(i + 1)[j]@) == o;
                    if j < i {
                        assert(owners@.take(i + 1)[j] == owners@.take(i as int)[j]);
                    } else {
                        assert(owners@.take(i + 1)[j] == owners@[i as int]);
                    }
                }
            }
        }
        i += 1;
    }
    assert(owners@.take(owners@.len() as int) =~= owners@);
    proof {
        crate::strset::lemma_wf_sorted(&set);
    }
    set.to_vec()
}

/// The `registry` field recorded for an index: absent for the official
/// `agam` index, its name otherwise.
pub fn registry_field_for_index(index_name: &str) -> (r: Option<String>)
    ensures
        index_name@ == "agam"@ ==> r is None,
        index_name@ != "agam"@ ==> r is Some && r->0@ == index_name@,
{
    if str_eq(index_name, "agam") {
        None
    } else {
        Some(copy_str(index_name))
    }
}

} // verus!

verus! {

use crate::text::starts_with;

/// Environment variables handed on to an isolated headless worker besides
/// those starting with `AGAM_LLVM_`.
pub open spec fn forwarded_env_names() -> Seq<Seq<char>> {
    seq![
        "AGAM_DEV_USE_WSL_LLVM"@, "PATH"@, "Path"@, "PATHEXT"@, "TEMP"@, "TMP"@, "TMPDIR"@, "HOME"@,
        "USERPROFILE"@, "LOCALAPPDATA"@, "APPDATA"@, "SystemRoot"@, "SYSTEMROOT"@, "SystemDrive"@,
        "WINDIR"@, "ComSpec"@, "COMSPEC"@, "ProgramFiles"@, "ProgramFiles(x86)"@, "ProgramW6432"@,
        "INCLUDE"@, "LIB"@, "LIBPATH"@, "VCINSTALLDIR"@, "VSINSTALLDIR"@, "WindowsSdkDir"@,
        "WindowsSDKDir"@, "WindowsSDKVersion"@, "UniversalCRTSdkDir"@, "UCRTVersion"@, "SDKROOT"@,
        "ANDROID_NDK_HOME"@, "ANDROID_NDK_ROOT"@, "LD_LIBRARY_PATH"@, "DYLD_LIBRARY_PATH"@,
        "DYLD_FALLBACK_LIBRARY_PATH"@,
    ]
}

/// Whether the environment variable `key` is passed to a headless worker.
pub fn should_forward_headless_worker_env_var(key: &str) -> (r: bool)
    ensures
        r == (starts_with(key@, "AGAM_LLVM_"@) || forwarded_env_names().contains(key@)),
{
    let kv = chars_of(key);
    let prefix = chars_of("AGAM_LLVM_");
    if crate::text::starts_with_chars(&kv, &prefix) {
        return true;
    }
    let names: Vec<&str> = vec![
        "AGAM_DEV_USE_WSL_LLVM", "PATH", "Path", "PATHEXT", "TEMP", "TMP", "TMPDIR", "HOME",
        "USERPROFILE", "LOCALAPPDATA", "APPDATA", "SystemRoot", "SYSTEMROOT", "SystemDrive",
        "WINDIR", "ComSpec", "COMSPEC", "ProgramFiles", "ProgramFiles(x86)", "ProgramW6432",
        "INCLUDE", "LIB", "LIBPATH", "VCINSTALLDIR", "VSINSTALLDIR", "WindowsSdkDir",
        "WindowsSDKDir", "WindowsSDKVersion", "UniversalCRTSdkDir", "UCRTVersion", "SDKROOT",
        "ANDROID_NDK_HOME", "ANDROID_NDK_ROOT", "LD_LIBRARY_PATH", "DYLD_LIBRARY_PATH",
        "DYLD_FALLBACK_LIBRARY_PATH",
    ];
    let ghost all = names@.map_values(|s: &str| s@);
    assert(all =~= forwarded_env_names());
    let mut i: usize = 0;
    while i < names.len()
        invariant
            i <= names@.len(),
            all == names@.map_values(|s: &str| s@),
            all == forwarded_env_names(),
            forall|k: int| 0 <= k < i ==> all[k] != key@,
        decreases names@.len() - i,
    {
        if str_eq(names[i], key) {
            assert(all[i as int] == key@);
            assert(forwarded_env_names().contains(key@));
            return true;
        }
        i += 1;
    }
    false
}

/// Whether an environment flag value means "on": `1`, `true`, `yes` or
/// `on`, ignoring case and surrounding whitespace.
pub fn flag_value_enabled(value: Option<&str>) -> (r: bool)
    ensures
        r == (match value {
            Some(v) => {
                let t = ascii_lowercase(trim_ws(v@));
                t == "1"@ || t == "true"@ || t == "yes"@ || t == "on"@
            },
            None => false,
        }),
{
    match value {
        Some(v) => {
            let t = trim(v);
            let tv = chars_of(t.as_str());
            let lower = ascii_lowercase_chars(&tv);
            let s = string_from_chars(&lower);
            str_eq(s.as_str(), "1") || str_eq(s.as_str(), "true") || str_eq(s.as_str(), "yes")
                || str_eq(s.as_str(), "on")
        },
        None => false,
    }
}

/// Dependency table of a manifest.
#[derive(Clone, Copy, Debug, PartialEq, Eq, Structural)]
pub enum DependencyTable {
    Main,
    Dev,
    Build,
}

impl DependencyTable {
    /// Name of the table in `agam.toml`.
    pub fn manifest_label(self) -> (r: &'static str)
        ensures
            r@ == (match self {
                DependencyTable::Main => "dependencies"@,
                DependencyTable::Dev => "dev-dependencies"@,
                DependencyTable::Build => "build-dependencies"@,
            }),
    {
        match self {
            DependencyTable::Main => "dependencies",
            DependencyTable::Dev => "dev-dependencies",
            DependencyTable::Build => "build-dependencies",
        }
    }
}

} // verus!

verus! {

use crate::text::{is_whitespace_char, lemma_trim_ws_no_whitespace};

pub open spec fn is_headless_safe_char(c: char) -> bool {
    is_ascii_alphanumeric_char(c) || c == '.' || c == '_' || c == '-'
}

proof fn lemma_last_segment_no_separator(s: Seq<char>)
    requires
        forall|k: int| 0 <= k < s.len() ==> !is_separator(#[trigger] s[k]),
    ensures
        last_segment(s) == s,
        strip_trailing_components(s) == s,
    decreases s.len(),
{
    if s.len() > 0 {
        let d = s.drop_last();
        assert forall|k: int| 0 <= k < d.len() implies !is_separator(#[trigger] d[k]) by {
            assert(d[k] == s[k]);
        }
        lemma_last_segment_no_separator(d);
        assert(d.push(s.last()) =~= s);
    }
}

/// A sanitized headless file name is left as it is by sanitizing it again.
pub proof fn lemma_sanitized_headless_filename_idempotent(filename: Seq<char>)
    ensures
        sanitized_headless_filename(sanitized_headless_filename(filename)) == sanitized_headless_filename(
            filename,
        ),
{
    reveal_strlit("snippet.agam");
    reveal_strlit(".agam");
    let once = sanitized_headless_filename(filename);
    let mapped = headless_base_name(filename).map_values(|c: char| headless_char(c));
    let named = if mapped.len() == 0 { "snippet.agam"@ } else { mapped };
    assert forall|k: int| 0 <= k < named.len() implies is_headless_safe_char(#[trigger] named[k]) by {
        if mapped.len() > 0 {
            assert(named[k] == headless_char(headless_base_name(filename)[k]));
        }
    }
    assert forall|k: int| 0 <= k < once.len() implies is_headless_safe_char(#[trigger] once[k]) by {
        if !ends_with(named, ".agam"@) && k >= named.len() {
            assert(once[k] == ".agam"@[k - named.len()]);
        } else {
            assert(once[k] == named[k]);
        }
    }
    assert(ends_with(once, ".agam"@)) by {
        if !ends_with(named, ".agam"@) {
            assert(once.skip(once.len() - 5) =~= ".agam"@);
        }
    }
    assert forall|k: int| 0 <= k < once.len() implies !is_whitespace_char(#[trigger] once[k]) by {
        assert(is_headless_safe_char(once[k]));
    }
    assert forall|k: int| 0 <= k < once.len() implies !is_separator(#[trigger] once[k]) by {
        assert(is_headless_safe_char(once[k]));
    }
    lemma_trim_ws_no_whitespace(once);
    lemma_last_segment_no_separator(once);
    assert(once.len() >= 5);
    assert(once != "."@ && once != ".."@) by {
        reveal_strlit(".");
        reveal_strlit("..");
    }
    assert(headless_base_name(once) == once);
    let remapped = once.map_values(|c: char| headless_char(c));
    assert(remapped =~= once) by {
        assert forall|k: int| 0 <= k < once.len() implies remapped[k] == once[k] by {
            assert(is_headless_safe_char(once[k]));
        }
    }
}

} // verus!

verus! {

/// How an environment is named in listings: its name, marked when it is
/// the workspace's default.
pub fn environment_selection_label(name: &str, selected_by_default: bool) -> (r: String)
    ensures
        r@ == (if selected_by_default {
            name@ + " (default)"@
        } else {
            name@
        }),
{
    let mut s = copy_str(name);
    if selected_by_default {
        s.append(" (default)");
    }
    s
}

} // verus!
