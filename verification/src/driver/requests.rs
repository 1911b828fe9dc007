//! Build requests: which source files to compile, and where each output
//! goes.

use vstd::prelude::*;
use crate::driver::backend::{classify_platform, native_binary_extension, opt_view, LlvmTargetPlatform};
use crate::driver::paths::{default_binary_path, default_native_binary_output_path, join_all, join_segments, path_key, same_path, strs_view};
use crate::text::{copy_str, strings_view};

verus! {

/// One source file to compile, and where its output goes.
#[derive(Clone, Debug, PartialEq, Eq)]
pub struct BuildRequest {
    pub file: String,
    pub output: String,
}

pub open spec fn requests_view(v: Seq<BuildRequest>) -> Seq<(Seq<char>, Seq<char>)> {
    v.map_values(|r: BuildRequest| (r.file@, r.output@))
}

pub open spec fn no_input_message() -> Seq<char> {
    "at least one source file is required"@
}

pub open spec fn output_needs_single_input_message() -> Seq<char> {
    "`--output` only supports a single input file; omit it to compile each file to its default output path"@
}

/// The first failure among the resolutions of the inputs.
pub open spec fn first_error(entries: Seq<Result<String, String>>) -> Option<Seq<char>>
    decreases entries.len(),
{
    if entries.len() == 0 {
        None
    } else {
        match first_error(entries.drop_last()) {
            Some(e) => Some(e),
            None => match entries.last() {
                Err(e) => Some(e@),
                Ok(_) => None,
            },
        }
    }
}

/// Whether `list` holds a path equal to `p` (as `Path`'s equality has it).
pub open spec fn holds_path(list: Seq<Seq<char>>, p: Seq<char>) -> bool {
    exists|k: int| 0 <= k < list.len() && path_key(#[trigger] list[k]) == path_key(p)
}

/// `list` with `p` appended, unless it already holds that path.
pub open spec fn push_unique_path(list: Seq<Seq<char>>, p: Seq<char>) -> Seq<Seq<char>> {
    if holds_path(list, p) {
        list
    } else {
        list.push(p)
    }
}

/// The resolved entry files, each path once (spelled as at its first
/// appearance), in the order of their first appearance.
pub open spec fn resolved_files(entries: Seq<Result<String, String>>) -> Seq<Seq<char>>
    decreases entries.len(),
{
    if entries.len() == 0 {
        Seq::empty()
    } else {
        let prev = resolved_files(entries.drop_last());
        match entries.last() {
            Ok(f) => push_unique_path(prev, f@),
            Err(_) => prev,
        }
    }
}

/// The build requests for the inputs whose entry files resolved to
/// `entries` (in order): an explicit `output` serves a single input only;
/// otherwise each distinct entry path is built next to itself.
pub open spec fn build_requests_of(
    entries: Seq<Result<String, String>>,
    output: Option<Seq<char>>,
    target: Option<Seq<char>>,
    host: LlvmTargetPlatform,
) -> Result<Seq<(Seq<char>, Seq<char>)>, Seq<char>> {
    if entries.len() == 0 {
        Err(no_input_message())
    } else {
        match output {
            Some(o) => if entries.len() > 1 {
                Err(output_needs_single_input_message())
            } else {
                match entries[0] {
                    Ok(f) => Ok(seq![(f@, o)]),
                    Err(e) => Err(e@),
                }
            },
            None => match first_error(entries) {
                Some(e) => Err(e),
                None => Ok(
                    resolved_files(entries).map_values(
                        |f: Seq<char>| (f, default_binary_path(f, target, host)),
                    ),
                ),
            },
        }
    }
}

/// Whether `list` holds a path equal to `p`.
fn contains_path(list: &Vec<String>, p: &str) -> (r: bool)
    ensures
        r == holds_path(strings_view(list@), p@),
{
    let ghost v = strings_view(list@);
    let mut i: usize = 0;
    while i < list.len()
        invariant
            i <= list.len(),
            v == strings_view(list@),
            forall|k: int| 0 <= k < i ==> path_key(#[trigger] v[k]) != path_key(p@),
        decreases list.len() - i,
    {
        assert(v[i as int] == list@[i as int]@);
        if same_path(list[i].as_str(), p) {
            return true;
        }
        i += 1;
    }
    false
}

/// The build requests for the given inputs. `entries` holds, for each input
/// path in order, the entry source file it resolves to or why it does not
/// resolve. An explicit `output` serves a single input only; otherwise each
/// distinct entry path (paths are compared by their components) gets the
/// default native binary path for `target`.
pub fn resolve_build_requests(
    entries: Vec<Result<String, String>>,
    output: Option<String>,
    target: Option<&str>,
    host: LlvmTargetPlatform,
) -> (r: Result<Vec<BuildRequest>, String>)
    ensures
        match build_requests_of(entries@, crate::driver::toolchain::opt_view(output), opt_view(target), host) {
            Ok(reqs) => r is Ok && requests_view(r->Ok_0@) == reqs,
            Err(e) => r is Err && r->Err_0@ == e,
        },
{
    if entries.len() == 0 {
        return Err("at least one source file is required".to_string());
    }
    if let Some(o) = output {
        if entries.len() > 1 {
            return Err(
                "`--output` only supports a single input file; omit it to compile each file to its default output path".to_string(),
            );
        }
        return match &entries[0] {
            Ok(f) => {
                let r = vec![BuildRequest { file: copy_str(f.as_str()), output: o }];
                assert(requests_view(r@) =~= seq![(f@, r@[0].output@)]);
                Ok(r)
            },
            Err(e) => Err(copy_str(e.as_str())),
        };
    }
    let mut seen: Vec<String> = Vec::new();
    let mut requests: Vec<BuildRequest> = Vec::new();
    let mut i: usize = 0;
    while i < entries.len()
        invariant
            i <= entries.len(),
            output is None,
            first_error(entries@.take(i as int)) is None,
            strings_view(seen@) == resolved_files(entries@.take(i as int)),
            requests_view(requests@) == resolved_files(entries@.take(i as int)).map_values(
                |f: Seq<char>| (f, default_binary_path(f, opt_view(target), host)),
            ),
        decreases entries.len() - i,
    {
        assert(entries@.take(i + 1).drop_last() =~= entries@.take(i as int));
        match &entries[i] {
            Err(e) => {
                assert(first_error(entries@.take(i + 1)) == Some(e@));
                let mut j: usize = i + 1;
                while j < entries.len()
                    invariant
                        i < j <= entries.len(),
                        output is None,
                        first_error(entries@.take(j as int)) == Some(e@),
                    decreases entries.len() - j,
                {
                    assert(entries@.take(j + 1).drop_last() =~= entries@.take(j as int));
                    j += 1;
                }
                assert(entries@.take(entries.len() as int) =~= entries@);
                return Err(copy_str(e.as_str()));
            },
            Ok(f) => {
                if !contains_path(&seen, f.as_str()) {
                    let ghost seen0 = seen@;
                    let ghost req0 = requests@;
                    let output = default_native_binary_output_path(f.as_str(), target, host);
                    seen.push(copy_str(f.as_str()));
                    requests.push(BuildRequest { file: copy_str(f.as_str()), output });
                    assert(strings_view(seen@) =~= strings_view(seen0).push(f@));
                    assert(requests_view(requests@) =~= requests_view(req0).push(
                        (f@, default_binary_path(f@, opt_view(target), host)),
                    ));
                }
            },
        }
        i += 1;
    }
    assert(entries@.take(entries.len() as int) =~= entries@);
    Ok(requests)
}

} // verus!

verus! {

pub open spec fn entry_file(e: Result<String, String>) -> Option<Seq<char>> {
    match e {
        Ok(f) => Some(f@),
        Err(_) => None,
    }
}

/// The resolved files name distinct paths, each is the file of some input,
/// and the path of every input that resolved is among them.
pub proof fn lemma_resolved_files_distinct(entries: Seq<Result<String, String>>)
    ensures
        forall|i: int, j: int|
            0 <= i < j < resolved_files(entries).len() ==> path_key(
                #[trigger] resolved_files(entries)[i],
            ) != path_key(#[trigger] resolved_files(entries)[j]),
        forall|i: int|
            0 <= i < resolved_files(entries).len() ==> exists|k: int|
                0 <= k < entries.len() && entry_file(#[trigger] entries[k]) == Some(
                    #[trigger] resolved_files(entries)[i],
                ),
        forall|k: int|
            0 <= k < entries.len() && (#[trigger] entries[k]) is Ok ==> holds_path(
                resolved_files(entries),
                entries[k]->Ok_0@,
            ),
    decreases entries.len(),
{
    if entries.len() > 0 {
        let d = entries.drop_last();
        lemma_resolved_files_distinct(d);
        let prev = resolved_files(d);
        let files = resolved_files(entries);
        let n = entries.len() - 1;
        assert(entries[n] == entries.last());
        assert forall|k: int| 0 <= k < n implies #[trigger] entries[k] == d[k] by {}
        let grows = match entries.last() {
            Ok(g) => !holds_path(prev, g@),
            Err(_) => false,
        };
        if !grows {
            assert(files == prev);
            assert forall|i: int| 0 <= i < files.len() implies exists|k: int|
                0 <= k < entries.len() && entry_file(#[trigger] entries[k]) == Some(
                    #[trigger] files[i],
                ) by {
                let k = choose|k: int| 0 <= k < d.len() && entry_file(#[trigger] d[k]) == Some(prev[i]);
                assert(entries[k] == d[k]);
            }
            assert forall|k: int|
                0 <= k < entries.len() && (#[trigger] entries[k]) is Ok implies holds_path(
                files,
                entries[k]->Ok_0@,
            ) by {
                if k < n {
                    assert(entries[k] == d[k]);
                }
            }
        } else {
            let g = entries.last()->Ok_0@;
            assert(files == prev.push(g));
            assert forall|i: int, j: int|
                0 <= i < j < files.len() implies path_key(#[trigger] files[i]) != path_key(
                #[trigger] files[j],
            ) by {
                if j == files.len() - 1 {
                    assert(files[i] == prev[i]);
                    assert(files[j] == g);
                    if path_key(prev[i]) == path_key(g) {
                        assert(holds_path(prev, g));
                    }
                } else {
                    assert(files[i] == prev[i] && files[j] == prev[j]);
                }
            }
            assert forall|i: int| 0 <= i < files.len() implies exists|k: int|
                0 <= k < entries.len() && entry_file(#[trigger] entries[k]) == Some(
                    #[trigger] files[i],
                ) by {
                if i < prev.len() {
                    assert(files[i] == prev[i]);
                    let k = choose|k: int| 0 <= k < d.len() && entry_file(#[trigger] d[k]) == Some(prev[i]);
                    assert(entries[k] == d[k]);
                } else {
                    assert(entry_file(entries[n]) == Some(files[i]));
                }
            }
            assert forall|k: int|
                0 <= k < entries.len() && (#[trigger] entries[k]) is Ok implies holds_path(
                files,
                entries[k]->Ok_0@,
            ) by {
                let f = entries[k]->Ok_0@;
                if k < n {
                    assert(entries[k] == d[k]);
                    assert(holds_path(prev, f));
                    let w = choose|w: int| 0 <= w < prev.len() && path_key(#[trigger] prev[w]) == path_key(f);
                    assert(files[w] == prev[w]);
                } else {
                    assert(files[prev.len() as int] == g);
                    assert(f == g);
                }
            }
        }
    }
}

/// A build never holds two requests for one source path, and the path of
/// every input is built.
pub proof fn lemma_build_requests_distinct(
    entries: Seq<Result<String, String>>,
    target: Option<Seq<char>>,
    host: LlvmTargetPlatform,
)
    ensures
        build_requests_of(entries, None, target, host) is Ok ==> {
            let reqs = build_requests_of(entries, None, target, host)->Ok_0;
            &&& forall|i: int, j: int|
                0 <= i < j < reqs.len() ==> path_key(#[trigger] reqs[i].0) != path_key(
                    #[trigger] reqs[j].0,
                )
            &&& forall|k: int|
                0 <= k < entries.len() ==> exists|i: int|
                    0 <= i < reqs.len() && (#[trigger] entries[k]) is Ok && path_key(
                        entries[k]->Ok_0@,
                    ) == path_key(#[trigger] reqs[i].0)
        },
{
    lemma_resolved_files_distinct(entries);
    if build_requests_of(entries, None, target, host) is Ok {
        let reqs = build_requests_of(entries, None, target, host)->Ok_0;
        let files = resolved_files(entries);
        lemma_no_error_all_ok(entries);
        assert forall|i: int, j: int| 0 <= i < j < reqs.len() implies path_key(
            #[trigger] reqs[i].0,
        ) != path_key(#[trigger] reqs[j].0) by {
            assert(reqs[i].0 == files[i] && reqs[j].0 == files[j]);
        }
        assert forall|k: int| 0 <= k < entries.len() implies exists|i: int|
            0 <= i < reqs.len() && (#[trigger] entries[k]) is Ok && path_key(entries[k]->Ok_0@)
                == path_key(#[trigger] reqs[i].0) by {
            let f = entries[k]->Ok_0;
            assert(holds_path(files, f@));
            let i = choose|i: int| 0 <= i < files.len() && path_key(#[trigger] files[i]) == path_key(f@);
            assert(reqs[i].0 == files[i]);
        }
    }
}

proof fn lemma_no_error_all_ok(entries: Seq<Result<String, String>>)
    requires
        first_error(entries) is None,
    ensures
        forall|k: int| 0 <= k < entries.len() ==> (#[trigger] entries[k]) is Ok,
    decreases entries.len(),
{
    if entries.len() > 0 {
        let d = entries.drop_last();
        lemma_no_error_all_ok(d);
        assert forall|k: int| 0 <= k < entries.len() implies (#[trigger] entries[k]) is Ok by {
            if k < entries.len() - 1 {
                assert(entries[k] == d[k]);
            }
        }
    }
}

} // verus!

verus! {

/// Default output of `agamc build` for a workspace: `dist/<project>` (with
/// `.exe` for Windows targets) under the root of a project with a manifest,
/// else the native binary next to the entry file.
pub fn default_build_output_path(
    root: &str,
    has_manifest: bool,
    project_name: &str,
    entry_file: &str,
    target: Option<&str>,
    host: LlvmTargetPlatform,
) -> (r: String)
    ensures
        r@ == (if has_manifest {
            join_all(
                root@,
                seq![
                    "dist"@,
                    if classify_platform(opt_view(target), host) == LlvmTargetPlatform::Windows {
                        project_name@ + ".exe"@
                    } else {
                        project_name@
                    },
                ],
            )
        } else {
            default_binary_path(entry_file@, opt_view(target), host)
        }),
{
    if has_manifest {
        let mut name = copy_str(project_name);
        if native_binary_extension(target, host).is_some() {
            name.append(".exe");
        }
        let n: &str = name.as_str();
        let r = join_segments(root, &vec!["dist", n]);
        assert(strs_view(seq!["dist", n]) =~= seq!["dist"@, name@]);
        return r;
    }
    default_native_binary_output_path(entry_file, target, host)
}

/// Default output of `agamc package` for a workspace:
/// `dist/<project>.agpkg.json` under the root of a project with a manifest,
/// else `entry_package_path`, the package path the package format gives the
/// entry file.
pub fn default_package_output_path(root: &str, has_manifest: bool, project_name: &str, entry_package_path: String) -> (r: String)
    ensures
        r@ == (if has_manifest {
            join_all(root@, seq!["dist"@, project_name@ + ".agpkg.json"@])
        } else {
            entry_package_path@
        }),
{
    if has_manifest {
        let mut name = copy_str(project_name);
        name.append(".agpkg.json");
        let n: &str = name.as_str();
        let r = join_segments(root, &vec!["dist", n]);
        assert(strs_view(seq!["dist", n]) =~= seq!["dist"@, name@]);
        return r;
    }
    entry_package_path
}

} // verus!

verus! {

use crate::driver::paths::{with_extension, with_extension_of};

/// The kinds of artifact the build cache stores.
#[derive(Clone, Copy, Debug, PartialEq, Eq, Structural)]
pub enum CacheArtifactKind {
    NativeBinary,
    LlvmIr,
    CSource,
    PortablePackage,
    ProfileJson,
}

/// Where a cached artifact of `kind` is restored for the build output
/// `output`: the output itself for a native binary, else the output with the
/// artifact's extension.
pub fn cached_build_output_path(output: &str, kind: CacheArtifactKind) -> (r: String)
    ensures
        r@ == (match kind {
            CacheArtifactKind::NativeBinary => output@,
            CacheArtifactKind::LlvmIr => with_extension_of(output@, "ll"@),
            CacheArtifactKind::CSource => with_extension_of(output@, "c"@),
            CacheArtifactKind::PortablePackage => with_extension_of(output@, "agpkg.json"@),
            CacheArtifactKind::ProfileJson => with_extension_of(output@, "call_profile.json"@),
        }),
{
    match kind {
        CacheArtifactKind::NativeBinary => copy_str(output),
        CacheArtifactKind::LlvmIr => with_extension(output, "ll"),
        CacheArtifactKind::CSource => with_extension(output, "c"),
        CacheArtifactKind::PortablePackage => with_extension(output, "agpkg.json"),
        CacheArtifactKind::ProfileJson => with_extension(output, "call_profile.json"),
    }
}

} // verus!
