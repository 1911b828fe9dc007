//! Where the driver looks for native toolchains, and what it asks for when
//! it finds none. What the environment and the file system hold is read by
//! the caller and handed in as plain values.

use vstd::prelude::*;
use crate::driver::backend::{classify_platform, LlvmTargetPlatform, LlvmToolchain};
use crate::driver::paths::{join_all, join_path, path_join, strs_view, join_segments};
use crate::text::{copy_str, str_eq, trim, trim_ws};

verus! {

/// Environment variable naming the clang driver to use.
pub open spec fn llvm_clang_env() -> Seq<char> {
    "AGAM_LLVM_CLANG"@
}

/// The clang driver named by `AGAM_LLVM_CLANG` (its value, when set), unless
/// the value is blank.
pub fn configured_llvm_clang_override(value: Option<&str>) -> (r: Option<String>)
    ensures
        match value {
            Some(v) => if trim_ws(v@).len() > 0 {
                r is Some && r->0@ == v@
            } else {
                r is None
            },
            None => r is None,
        },
{
    match value {
        Some(v) => {
            let t = trim(v);
            if t.as_str().is_empty() {
                None
            } else {
                Some(copy_str(v))
            }
        },
        None => None,
    }
}

/// `list` with `item` added at the end unless it is already there.
pub open spec fn push_unique(list: Seq<Seq<char>>, item: Seq<char>) -> Seq<Seq<char>> {
    if list.contains(item) {
        list
    } else {
        list.push(item)
    }
}

pub open spec fn push_unique_opt(list: Seq<Seq<char>>, item: Option<Seq<char>>) -> Seq<Seq<char>> {
    match item {
        Some(i) => push_unique(list, i),
        None => list,
    }
}

pub open spec fn opt_view(s: Option<String>) -> Option<Seq<char>> {
    match s {
        Some(x) => Some(x@),
        None => None,
    }
}

/// The clang drivers to try, in order: the explicitly configured one alone,
/// else the bundled, Visual Studio and standalone Windows drivers that were
/// found, then `clang` and `clang++` from `PATH`, each once.
pub open spec fn clang_candidates_of(
    explicit: Option<Seq<char>>,
    bundled: Option<Seq<char>>,
    visual_studio: Option<Seq<char>>,
    standalone: Option<Seq<char>>,
) -> Seq<Seq<char>> {
    match explicit {
        Some(e) => seq![e],
        None => {
            let a = match bundled {
                Some(b) => seq![b],
                None => Seq::empty(),
            };
            let b = push_unique_opt(a, visual_studio);
            let c = push_unique_opt(b, standalone);
            push_unique(push_unique(c, "clang"@), "clang++"@)
        },
    }
}

pub(crate) fn contains_string(list: &Vec<String>, item: &str) -> (r: bool)
    ensures
        r == crate::text::strings_view(list@).contains(item@),
{
    let ghost v = crate::text::strings_view(list@);
    let mut i: usize = 0;
    while i < list.len()
        invariant
            i <= list.len(),
            v == crate::text::strings_view(list@),
            forall|k: int| 0 <= k < i ==> v[k] != item@,
        decreases list.len() - i,
    {
        if str_eq(list[i].as_str(), item) {
            assert(v[i as int] == item@);
            return true;
        }
        i += 1;
    }
    false
}

pub(crate) fn push_unique_exec(list: &mut Vec<String>, item: &str)
    ensures
        crate::text::strings_view(final(list)@) == push_unique(
            crate::text::strings_view(old(list)@),
            item@,
        ),
{
    if !contains_string(list, item) {
        list.push(copy_str(item));
        assert(crate::text::strings_view(list@) =~= crate::text::strings_view(old(list)@).push(
            item@,
        ));
    }
}

/// The clang drivers to try, in order: the configured override alone when
/// there is one, else the bundled driver, the Visual Studio driver and the
/// standalone Windows driver that were discovered, then `clang` and
/// `clang++`, without repeats.
pub fn native_llvm_clang_candidates(
    explicit: Option<String>,
    bundled: Option<String>,
    visual_studio: Option<String>,
    standalone: Option<String>,
) -> (r: Vec<String>)
    ensures
        crate::text::strings_view(r@) == clang_candidates_of(
            opt_view(explicit),
            opt_view(bundled),
            opt_view(visual_studio),
            opt_view(standalone),
        ),
{
    if let Some(e) = explicit {
        let r = vec![e];
        assert(crate::text::strings_view(r@) =~= seq![r@[0]@]);
        return r;
    }
    let mut candidates: Vec<String> = Vec::new();
    if let Some(b) = bundled {
        candidates.push(b);
    }
    assert(crate::text::strings_view(candidates@) =~= match opt_view(bundled) {
        Some(b) => seq![b],
        None => Seq::<Seq<char>>::empty(),
    });
    if let Some(v) = visual_studio {
        push_unique_exec(&mut candidates, v.as_str());
    }
    if let Some(s) = standalone {
        push_unique_exec(&mut candidates, s.as_str());
    }
    push_unique_exec(&mut candidates, "clang");
    push_unique_exec(&mut candidates, "clang++");
    candidates
}

/// The toolchain to run LLVM builds with: the native one when found, else
/// WSL when it was opted into and has clang.
pub fn resolve_llvm_run_toolchain_with_opt_in(
    native: Option<LlvmToolchain>,
    allow_dev_wsl_llvm: bool,
    wsl_has_clang: bool,
) -> (r: Option<LlvmToolchain>)
    ensures
        r == (if native is Some {
            native
        } else if allow_dev_wsl_llvm && wsl_has_clang {
            Some(LlvmToolchain::Wsl)
        } else {
            None
        }),
{
    if let Some(n) = native {
        Some(n)
    } else if allow_dev_wsl_llvm && wsl_has_clang {
        Some(LlvmToolchain::Wsl)
    } else {
        None
    }
}

/// The C compiler used when none is configured.
pub fn default_c_compiler(windows: bool) -> (r: &'static str)
    ensures
        r@ == (if windows {
            "gcc"@
        } else {
            "cc"@
        }),
{
    if windows {
        "gcc"
    } else {
        "cc"
    }
}

} // verus!

verus! {

/// Directory name of the bundled LLVM toolchain for an operating system and
/// architecture (as `std::env::consts` names them).
pub open spec fn platform_dir_of(os: Seq<char>, arch: Seq<char>) -> Seq<char> {
    if os == "windows"@ && arch == "x86_64"@ {
        "windows-x86_64"@
    } else if os == "windows"@ && arch == "aarch64"@ {
        "windows-aarch64"@
    } else if os == "linux"@ && arch == "x86_64"@ {
        "linux-x86_64"@
    } else if os == "linux"@ && arch == "aarch64"@ {
        "linux-aarch64"@
    } else if os == "macos"@ && arch == "x86_64"@ {
        "darwin-x86_64"@
    } else if os == "macos"@ && arch == "aarch64"@ {
        "darwin-aarch64"@
    } else {
        "unknown"@
    }
}

/// Directory of the bundled LLVM toolchain for the platform `os`/`arch`.
pub fn bundled_llvm_platform_dir(os: &str, arch: &str) -> (r: &'static str)
    ensures
        r@ == platform_dir_of(os@, arch@),
{
    if str_eq(os, "windows") && str_eq(arch, "x86_64") {
        "windows-x86_64"
    } else if str_eq(os, "windows") && str_eq(arch, "aarch64") {
        "windows-aarch64"
    } else if str_eq(os, "linux") && str_eq(arch, "x86_64") {
        "linux-x86_64"
    } else if str_eq(os, "linux") && str_eq(arch, "aarch64") {
        "linux-aarch64"
    } else if str_eq(os, "macos") && str_eq(arch, "x86_64") {
        "darwin-x86_64"
    } else if str_eq(os, "macos") && str_eq(arch, "aarch64") {
        "darwin-aarch64"
    } else {
        "unknown"
    }
}

/// Target triple of the platform `os`/`arch`.
pub open spec fn host_triple_of(os: Seq<char>, arch: Seq<char>) -> Seq<char> {
    if os == "windows"@ && arch == "x86_64"@ {
        "x86_64-pc-windows-msvc"@
    } else if os == "windows"@ && arch == "aarch64"@ {
        "aarch64-pc-windows-msvc"@
    } else if os == "linux"@ && arch == "x86_64"@ {
        "x86_64-unknown-linux-gnu"@
    } else if os == "linux"@ && arch == "aarch64"@ {
        "aarch64-unknown-linux-gnu"@
    } else if os == "macos"@ && arch == "x86_64"@ {
        "x86_64-apple-darwin"@
    } else if os == "macos"@ && arch == "aarch64"@ {
        "aarch64-apple-darwin"@
    } else {
        arch + "-unknown-"@ + os
    }
}

/// LLVM target triple of the platform `os`/`arch`.
pub fn default_host_target_triple(os: &str, arch: &str) -> (r: String)
    ensures
        r@ == host_triple_of(os@, arch@),
{
    if str_eq(os, "windows") && str_eq(arch, "x86_64") {
        "x86_64-pc-windows-msvc".to_string()
    } else if str_eq(os, "windows") && str_eq(arch, "aarch64") {
        "aarch64-pc-windows-msvc".to_string()
    } else if str_eq(os, "linux") && str_eq(arch, "x86_64") {
        "x86_64-unknown-linux-gnu".to_string()
    } else if str_eq(os, "linux") && str_eq(arch, "aarch64") {
        "aarch64-unknown-linux-gnu".to_string()
    } else if str_eq(os, "macos") && str_eq(arch, "x86_64") {
        "x86_64-apple-darwin".to_string()
    } else if str_eq(os, "macos") && str_eq(arch, "aarch64") {
        "aarch64-apple-darwin".to_string()
    } else {
        let mut s = String::new();
        s.append(arch);
        s.append("-unknown-");
        s.append(os);
        s
    }
}

/// Operating-system family of the host `os`.
pub fn host_llvm_target_platform(os: &str) -> (r: LlvmTargetPlatform)
    ensures
        r == (if os@ == "windows"@ {
            LlvmTargetPlatform::Windows
        } else if os@ == "macos"@ {
            LlvmTargetPlatform::MacOs
        } else if os@ == "linux"@ {
            LlvmTargetPlatform::Linux
        } else {
            LlvmTargetPlatform::Unknown
        }),
{
    if str_eq(os, "windows") {
        LlvmTargetPlatform::Windows
    } else if str_eq(os, "macos") {
        LlvmTargetPlatform::MacOs
    } else if str_eq(os, "linux") {
        LlvmTargetPlatform::Linux
    } else {
        LlvmTargetPlatform::Unknown
    }
}

/// Host tag of the Android NDK's prebuilt toolchain for the platform
/// `os`/`arch`, if the NDK ships one.
pub open spec fn ndk_host_tag_of(os: Seq<char>, arch: Seq<char>) -> Option<Seq<char>> {
    if os == "windows"@ {
        Some("windows-x86_64"@)
    } else if os == "linux"@ {
        Some("linux-x86_64"@)
    } else if os == "macos"@ {
        if arch == "aarch64"@ {
            Some("darwin-arm64"@)
        } else if arch == "x86_64"@ {
            Some("darwin-x86_64"@)
        } else {
            None
        }
    } else {
        None
    }
}

/// Host tag of the Android NDK's prebuilt toolchain for `os`/`arch`.
pub fn android_ndk_host_tag(os: &str, arch: &str) -> (r: Option<&'static str>)
    ensures
        match r {
            Some(t) => ndk_host_tag_of(os@, arch@) == Some(t@),
            None => ndk_host_tag_of(os@, arch@) is None,
        },
{
    if str_eq(os, "windows") {
        Some("windows-x86_64")
    } else if str_eq(os, "linux") {
        Some("linux-x86_64")
    } else if str_eq(os, "macos") {
        if str_eq(arch, "aarch64") {
            Some("darwin-arm64")
        } else if str_eq(arch, "x86_64") {
            Some("darwin-x86_64")
        } else {
            None
        }
    } else {
        None
    }
}

/// The sysroot inside an Android NDK for the host tag.
pub fn android_ndk_sysroot_path(ndk_root: &str, host_tag: &str) -> (r: String)
    ensures
        r@ == join_all(ndk_root@, seq!["toolchains"@, "llvm"@, "prebuilt"@, host_tag@, "sysroot"@]),
{
    let r = join_segments(ndk_root, &vec!["toolchains", "llvm", "prebuilt", host_tag, "sysroot"]);
    assert(strs_view(seq!["toolchains", "llvm", "prebuilt", host_tag, "sysroot"]) =~= seq![
        "toolchains"@,
        "llvm"@,
        "prebuilt"@,
        host_tag@,
        "sysroot"@,
    ]);
    r
}

/// Where `vswhere.exe` lives on Windows, under `ProgramFiles(x86)` (its
/// value, when set and not empty).
pub fn windows_vswhere_path(windows: bool, program_files_x86: Option<&str>) -> (r: Option<String>)
    ensures
        match program_files_x86 {
            Some(root) => if windows && root@.len() > 0 {
                r is Some && r->0@ == join_all(
                    root@,
                    seq!["Microsoft Visual Studio"@, "Installer"@, "vswhere.exe"@],
                )
            } else {
                r is None
            },
            None => r is None,
        },
{
    if !windows {
        return None;
    }
    match program_files_x86 {
        Some(root) => {
            if root.is_empty() {
                return None;
            }
            let r = join_segments(root, &vec!["Microsoft Visual Studio", "Installer", "vswhere.exe"]);
            assert(strs_view(seq!["Microsoft Visual Studio", "Installer", "vswhere.exe"]) =~= seq![
                "Microsoft Visual Studio"@,
                "Installer"@,
                "vswhere.exe"@,
            ]);
            Some(r)
        },
        None => None,
    }
}

/// `LLVM` under each of the program directories that is set and not
/// empty, in the order given, without repeats.
pub open spec fn standalone_roots_of(bases: Seq<Option<Seq<char>>>) -> Seq<Seq<char>>
    decreases bases.len(),
{
    if bases.len() == 0 {
        Seq::empty()
    } else {
        let prev = standalone_roots_of(bases.drop_last());
        match bases.last() {
            Some(b) => if b.len() > 0 {
                push_unique(prev, join_path(b, "LLVM"@))
            } else {
                prev
            },
            None => prev,
        }
    }
}

/// The install roots of a standalone LLVM on Windows: `LLVM` under the
/// values of `ProgramW6432`, `ProgramFiles` and `ProgramFiles(x86)` that are
/// set and not empty, in that order, without repeats; none elsewhere.
pub fn standalone_windows_llvm_install_roots(
    windows: bool,
    program_w6432: Option<&str>,
    program_files: Option<&str>,
    program_files_x86: Option<&str>,
) -> (r: Vec<String>)
    ensures
        windows ==> crate::text::strings_view(r@) == standalone_roots_of(
            seq![
                crate::driver::backend::opt_view(program_w6432),
                crate::driver::backend::opt_view(program_files),
                crate::driver::backend::opt_view(program_files_x86),
            ],
        ),
        !windows ==> r@.len() == 0,
{
    let mut roots: Vec<String> = Vec::new();
    if !windows {
        return roots;
    }
    let bases = vec![program_w6432, program_files, program_files_x86];
    let ghost spec_bases = seq![
        crate::driver::backend::opt_view(program_w6432),
        crate::driver::backend::opt_view(program_files),
        crate::driver::backend::opt_view(program_files_x86),
    ];
    let mut i: usize = 0;
    while i < bases.len()
        invariant
            i <= bases.len() == 3,
            spec_bases.len() == 3,
            forall|k: int| 0 <= k < 3 ==> spec_bases[k] == crate::driver::backend::opt_view(#[trigger] bases@[k]),
            crate::text::strings_view(roots@) == standalone_roots_of(spec_bases.take(i as int)),
        decreases bases.len() - i,
    {
        assert(spec_bases.take(i + 1).drop_last() =~= spec_bases.take(i as int));
        match bases[i] {
            Some(base) => {
                if !base.is_empty() {
                    let candidate = path_join(base, "LLVM");
                    push_unique_exec(&mut roots, candidate.as_str());
                }
            },
            None => {},
        }
        i += 1;
    }
    assert(spec_bases.take(3) =~= spec_bases);
    roots
}

/// What to do about a missing native LLVM on Windows (nothing to say
/// elsewhere): where to ship a bundled toolchain, how to install or repair
/// one, and which variables select one explicitly.
pub open spec fn install_hint_of(
    windows: bool,
    visual_studio_root: Option<Seq<char>>,
    has_standalone_roots: bool,
    platform_dir: Seq<char>,
) -> Option<Seq<char>> {
    if !windows {
        None
    } else {
        let base = match visual_studio_root {
            Some(root) => "install the LLVM/Clang tools in Visual Studio Installer for `"@ + root
                + "`"@,
            None => if has_standalone_roots {
                "repair or reinstall the official LLVM toolchain under `C:\\Program Files\\LLVM`"@
            } else {
                "install a native Windows LLVM/Clang toolchain (for example through Visual Studio Installer or the official LLVM installer)"@
            },
        };
        Some(
            "ship a bundled LLVM toolchain next to `agamc` under `toolchains/llvm/"@ + platform_dir
                + "/bin`, "@ + base
                + ", or set `AGAM_LLVM_BUNDLE_DIR` / `AGAM_LLVM_CLANG` explicitly"@,
        )
    }
}

/// The advice given when no native LLVM toolchain is found: on Windows,
/// where to ship a bundled toolchain (`platform_dir`), how to install or
/// repair one (from the Visual Studio installation found, if any, and
/// whether standalone LLVM roots exist) and which variables select one.
pub fn windows_native_llvm_install_hint(
    windows: bool,
    visual_studio_root: Option<&str>,
    has_standalone_roots: bool,
    platform_dir: &str,
) -> (r: Option<String>)
    ensures
        crate::driver::toolchain::opt_view(r) == install_hint_of(
            windows,
            crate::driver::backend::opt_view(visual_studio_root),
            has_standalone_roots,
            platform_dir@,
        ),
{
    if !windows {
        return None;
    }
    let mut s = String::new();
    s.append("ship a bundled LLVM toolchain next to `agamc` under `toolchains/llvm/");
    s.append(platform_dir);
    s.append("/bin`, ");
    match visual_studio_root {
        Some(root) => {
            s.append("install the LLVM/Clang tools in Visual Studio Installer for `");
            s.append(root);
            s.append("`");
        },
        None => {
            if has_standalone_roots {
                s.append("repair or reinstall the official LLVM toolchain under `C:\\Program Files\\LLVM`");
            } else {
                s.append("install a native Windows LLVM/Clang toolchain (for example through Visual Studio Installer or the official LLVM installer)");
            }
        },
    }
    s.append(", or set `AGAM_LLVM_BUNDLE_DIR` / `AGAM_LLVM_CLANG` explicitly");
    Some(s)
}

} // verus!

verus! {

use crate::driver::backend::classify_llvm_target_platform;

/// A target listed in a packaged SDK's manifest: its triple, the sysroot
/// packaged for it (relative to the SDK root), and whether that sysroot is
/// present as a directory.
#[derive(Clone, Debug)]
pub struct PackagedTargetProfile {
    pub target_triple: String,
    pub packaged_sysroot: Option<String>,
    pub sysroot_is_dir: bool,
}

/// How well a packaged Android sysroot fits the requested target: `2` for
/// the very triple, `1` otherwise.
pub open spec fn sysroot_priority(target: Option<Seq<char>>, triple: Seq<char>) -> u8 {
    match target {
        Some(t) => if t == triple {
            2
        } else {
            1
        },
        None => 1,
    }
}

/// The best packaged Android sysroot among `profiles`, with its priority:
/// the first one of the highest priority among the Android targets whose
/// packaged sysroot is present.
pub open spec fn best_packaged_sysroot(
    target: Option<Seq<char>>,
    sdk_root: Seq<char>,
    profiles: Seq<PackagedTargetProfile>,
    host: LlvmTargetPlatform,
) -> Option<(u8, Seq<char>)>
    decreases profiles.len(),
{
    if profiles.len() == 0 {
        None
    } else {
        let prev = best_packaged_sysroot(target, sdk_root, profiles.drop_last(), host);
        let p = profiles.last();
        if classify_platform(Some(p.target_triple@), host) == LlvmTargetPlatform::Android
            && p.packaged_sysroot is Some && p.sysroot_is_dir {
            let priority = sysroot_priority(target, p.target_triple@);
            match prev {
                Some((best, path)) => if best >= priority {
                    prev
                } else {
                    Some((priority, join_path(sdk_root, p.packaged_sysroot->0@)))
                },
                None => Some((priority, join_path(sdk_root, p.packaged_sysroot->0@))),
            }
        } else {
            prev
        }
    }
}

/// The Android sysroot packaged in the SDK at `sdk_root` that best fits
/// `target_triple`: among the manifest's Android targets whose packaged
/// sysroot is present, the one for that very triple, else the first.
pub fn resolve_packaged_android_sysroot(
    target_triple: Option<&str>,
    sdk_root: &str,
    profiles: &Vec<PackagedTargetProfile>,
    host: LlvmTargetPlatform,
) -> (r: Option<String>)
    ensures
        match best_packaged_sysroot(crate::driver::backend::opt_view(target_triple), sdk_root@, profiles@, host) {
            Some((_, path)) => r is Some && r->0@ == path,
            None => r is None,
        },
{
    let mut best: Option<(u8, String)> = None;
    let mut i: usize = 0;
    while i < profiles.len()
        invariant
            i <= profiles.len(),
            match best_packaged_sysroot(
                crate::driver::backend::opt_view(target_triple),
                sdk_root@,
                profiles@.take(i as int),
                host,
            ) {
                Some((p, path)) => best matches Some((bp, bpath)) && bp == p && bpath@ == path,
                None => best is None,
            },
        decreases profiles.len() - i,
    {
        assert(profiles@.take(i + 1).drop_last() =~= profiles@.take(i as int));
        let profile = &profiles[i];
        let platform = classify_llvm_target_platform(Some(profile.target_triple.as_str()), host);
        if platform == LlvmTargetPlatform::Android && profile.sysroot_is_dir {
            match &profile.packaged_sysroot {
                Some(rel) => {
                    let priority: u8 = match target_triple {
                        Some(t) => if str_eq(t, profile.target_triple.as_str()) {
                            2
                        } else {
                            1
                        },
                        None => 1,
                    };
                    let replace = match &best {
                        Some((b, _)) => *b < priority,
                        None => true,
                    };
                    if replace {
                        best = Some((priority, path_join(sdk_root, rel.as_str())));
                    }
                },
                None => {},
            }
        }
        i += 1;
    }
    assert(profiles@.take(profiles.len() as int) =~= profiles@);
    match best {
        Some((_, path)) => Some(path),
        None => None,
    }
}

} // verus!

verus! {

/// Checks the layout of an Android sysroot to be packaged from `source`:
/// it must be a directory (`source_is_dir`) holding a `usr/` directory
/// (`usr_is_dir`).
pub fn validate_android_sysroot_layout(source: &str, source_is_dir: bool, usr_is_dir: bool) -> (r: Result<(), String>)
    ensures
        source_is_dir && usr_is_dir ==> r is Ok,
        !source_is_dir ==> r is Err && r->Err_0@ == "Android sysroot source `"@ + source@
            + "` does not exist or is not a directory"@,
        source_is_dir && !usr_is_dir ==> r is Err && r->Err_0@ == "Android sysroot `"@ + source@
            + "` must include a `usr/` directory"@,
{
    if !source_is_dir {
        let mut e = String::new();
        e.append("Android sysroot source `");
        e.append(source);
        e.append("` does not exist or is not a directory");
        return Err(e);
    }
    if !usr_is_dir {
        let mut e = String::new();
        e.append("Android sysroot `");
        e.append(source);
        e.append("` must include a `usr/` directory");
        return Err(e);
    }
    Ok(())
}

/// Where an SDK distribution under `output_root` carries the Android
/// sysroot.
pub fn android_sysroot_destination(output_root: &str) -> (r: String)
    ensures
        r@ == join_all(output_root@, seq!["target-packs"@, "android-arm64"@, "sysroot"@]),
{
    let r = join_segments(output_root, &vec!["target-packs", "android-arm64", "sysroot"]);
    assert(strs_view(seq!["target-packs", "android-arm64", "sysroot"]) =~= seq![
        "target-packs"@,
        "android-arm64"@,
        "sysroot"@,
    ]);
    r
}

} // verus!

verus! {

use crate::driver::backend::Backend;

/// A target an SDK distribution supports: its name and triple, the backend
/// it builds with, the variables that point at its sysroot or SDK, and the
/// sysroot packaged for it.
#[derive(Clone, Debug, PartialEq, Eq)]
pub struct SdkTargetProfile {
    pub name: String,
    pub target_triple: String,
    pub backend: Backend,
    pub sysroot_env: Option<String>,
    pub sdk_env: Option<String>,
    pub packaged_sysroot: Option<String>,
}

/// An SDK target, as values.
pub struct SdkTargetModel {
    pub name: Seq<char>,
    pub target_triple: Seq<char>,
    pub backend: Backend,
    pub sysroot_env: Option<Seq<char>>,
    pub sdk_env: Option<Seq<char>>,
    pub packaged_sysroot: Option<Seq<char>>,
}

impl View for SdkTargetProfile {
    type V = SdkTargetModel;

    open spec fn view(&self) -> SdkTargetModel {
        SdkTargetModel {
            name: self.name@,
            target_triple: self.target_triple@,
            backend: self.backend,
            sysroot_env: opt_view(self.sysroot_env),
            sdk_env: opt_view(self.sdk_env),
            packaged_sysroot: opt_view(self.packaged_sysroot),
        }
    }
}

/// The workspace environment an SDK is packaged for: its name, target and
/// preferred backend.
#[derive(Clone, Debug)]
pub struct SdkEnvironment {
    pub name: String,
    pub target: Option<String>,
    pub preferred_backend: Option<Backend>,
}

pub open spec fn targets_view(v: Seq<SdkTargetProfile>) -> Seq<SdkTargetModel> {
    v.map_values(|t: SdkTargetProfile| t@)
}

/// The targets every SDK supports: the host itself, and on Windows and
/// Linux hosts Android on arm64.
pub open spec fn base_sdk_targets(host_triple: Seq<char>, host: LlvmTargetPlatform, packaged_android_sysroot: Option<Seq<char>>) -> Seq<SdkTargetModel> {
    let native = SdkTargetModel {
        name: "host-native"@,
        target_triple: host_triple,
        backend: Backend::Llvm,
        sysroot_env: None,
        sdk_env: None,
        packaged_sysroot: None,
    };
    if host == LlvmTargetPlatform::Windows || host == LlvmTargetPlatform::Linux {
        seq![
            native,
            SdkTargetModel {
                name: "android-arm64"@,
                target_triple: "aarch64-linux-android21"@,
                backend: Backend::Llvm,
                sysroot_env: Some("AGAM_LLVM_SYSROOT"@),
                sdk_env: None,
                packaged_sysroot: packaged_android_sysroot,
            },
        ]
    } else {
        seq![native]
    }
}

/// Index of the first target with the triple `triple`.
pub open spec fn first_target_with_triple(targets: Seq<SdkTargetModel>, triple: Seq<char>) -> Option<int>
    decreases targets.len(),
{
    if targets.len() == 0 {
        None
    } else if targets[0].target_triple == triple {
        Some(0)
    } else {
        match first_target_with_triple(targets.drop_first(), triple) {
            Some(i) => Some(i + 1),
            None => None,
        }
    }
}

pub open spec fn or_else<A>(a: Option<A>, b: Option<A>) -> Option<A> {
    if a is Some {
        a
    } else {
        b
    }
}

/// The targets an SDK distribution supports: the base targets, with the
/// selected environment's target merged into the entry for its triple (its
/// backend wins, its variables and sysroot fill what is missing) or put
/// first when no entry has it.
pub open spec fn sdk_targets_of(
    host_triple: Seq<char>,
    host: LlvmTargetPlatform,
    environment: Option<(Seq<char>, Option<Seq<char>>, Option<Backend>)>,
    packaged_android_sysroot: Option<Seq<char>>,
) -> Seq<SdkTargetModel> {
    let base = base_sdk_targets(host_triple, host, packaged_android_sysroot);
    match environment {
        Some((name, Some(target), preferred)) => {
            let platform = classify_platform(Some(target), host);
            let sysroot_env = if platform == LlvmTargetPlatform::Android {
                Some("AGAM_LLVM_SYSROOT"@)
            } else {
                None
            };
            let sdk_env = if platform == LlvmTargetPlatform::Ios || platform == LlvmTargetPlatform::MacOs {
                Some("AGAM_LLVM_SDKROOT"@)
            } else {
                None
            };
            let packaged = if platform == LlvmTargetPlatform::Android {
                packaged_android_sysroot
            } else {
                None
            };
            let backend = match preferred {
                Some(Backend::Auto) | None => Backend::Llvm,
                Some(b) => b,
            };
            match first_target_with_triple(base, target) {
                Some(i) => base.update(
                    i,
                    SdkTargetModel {
                        backend,
                        sysroot_env: or_else(base[i].sysroot_env, sysroot_env),
                        sdk_env: or_else(base[i].sdk_env, sdk_env),
                        packaged_sysroot: or_else(base[i].packaged_sysroot, packaged),
                        ..base[i]
                    },
                ),
                None => seq![
                    SdkTargetModel {
                        name,
                        target_triple: target,
                        backend,
                        sysroot_env,
                        sdk_env,
                        packaged_sysroot: packaged,
                    },
                ] + base,
            }
        },
        _ => base,
    }
}

pub open spec fn environment_view(e: Option<&SdkEnvironment>) -> Option<(Seq<char>, Option<Seq<char>>, Option<Backend>)> {
    match e {
        Some(env) => Some((env.name@, opt_view(env.target), env.preferred_backend)),
        None => None,
    }
}

proof fn lemma_first_target_with_triple(targets: Seq<SdkTargetModel>, triple: Seq<char>)
    ensures
        first_target_with_triple(targets, triple) matches Some(k) ==> 0 <= k < targets.len()
            && targets[k].target_triple == triple,
    decreases targets.len(),
{
    if targets.len() > 0 && targets[0].target_triple != triple {
        lemma_first_target_with_triple(targets.drop_first(), triple);
    }
}

fn find_target(targets: &Vec<SdkTargetProfile>, triple: &str) -> (r: Option<usize>)
    ensures
        match first_target_with_triple(targets_view(targets@), triple@) {
            Some(k) => r is Some && r->0 as int == k,
            None => r is None,
        },
{
    let ghost all = targets_view(targets@);
    assert(all.skip(0) =~= all);
    let mut i: usize = 0;
    while i < targets.len()
        invariant
            i <= targets.len(),
            all == targets_view(targets@),
            first_target_with_triple(all, triple@) == (match first_target_with_triple(
                all.skip(i as int),
                triple@,
            ) {
                Some(k) => Some(k + i),
                None => None,
            }),
        decreases targets.len() - i,
    {
        assert(all.skip(i as int).drop_first() =~= all.skip(i + 1));
        assert(all.skip(i as int)[0] == all[i as int]);
        if str_eq(targets[i].target_triple.as_str(), triple) {
            return Some(i);
        }
        i += 1;
    }
    assert(all.skip(i as int) =~= Seq::<SdkTargetModel>::empty());
    None
}

fn copy_opt(s: &Option<String>) -> (r: Option<String>)
    ensures
        opt_view(r) == opt_view(*s),
{
    match s {
        Some(x) => Some(copy_str(x.as_str())),
        None => None,
    }
}

fn opt_string(s: Option<&str>) -> (r: Option<String>)
    ensures
        opt_view(r) == crate::driver::backend::opt_view(s),
{
    match s {
        Some(x) => Some(copy_str(x)),
        None => None,
    }
}

/// The targets an SDK distribution supports on a host with triple
/// `host_triple`: the host itself, Android on arm64 where the host is
/// Windows or Linux (with `packaged_android_sysroot`), and the target of the
/// selected `environment`, merged into the entry for its triple or put first.
pub fn sdk_supported_targets(
    host_triple: &str,
    host: LlvmTargetPlatform,
    environment: Option<&SdkEnvironment>,
    packaged_android_sysroot: Option<&str>,
) -> (r: Vec<SdkTargetProfile>)
    ensures
        targets_view(r@) == sdk_targets_of(
            host_triple@,
            host,
            environment_view(environment),
            crate::driver::backend::opt_view(packaged_android_sysroot),
        ),
{
    let mut targets: Vec<SdkTargetProfile> = vec![
        SdkTargetProfile {
            name: "host-native".to_string(),
            target_triple: copy_str(host_triple),
            backend: Backend::Llvm,
            sysroot_env: None,
            sdk_env: None,
            packaged_sysroot: None,
        },
    ];
    if host == LlvmTargetPlatform::Windows || host == LlvmTargetPlatform::Linux {
        targets.push(
            SdkTargetProfile {
                name: "android-arm64".to_string(),
                target_triple: "aarch64-linux-android21".to_string(),
                backend: Backend::Llvm,
                sysroot_env: Some("AGAM_LLVM_SYSROOT".to_string()),
                sdk_env: None,
                packaged_sysroot: opt_string(packaged_android_sysroot),
            },
        );
    }
    let ghost base = base_sdk_targets(host_triple@, host, crate::driver::backend::opt_view(packaged_android_sysroot));
    assert(targets_view(targets@) =~= base);
    let environment = match environment {
        Some(e) => e,
        None => return targets,
    };
    let target = match &environment.target {
        Some(t) => t,
        None => return targets,
    };
    let platform = classify_llvm_target_platform(Some(target.as_str()), host);
    let sysroot_env = if platform == LlvmTargetPlatform::Android {
        Some("AGAM_LLVM_SYSROOT".to_string())
    } else {
        None
    };
    let sdk_env = if platform == LlvmTargetPlatform::Ios || platform == LlvmTargetPlatform::MacOs {
        Some("AGAM_LLVM_SDKROOT".to_string())
    } else {
        None
    };
    let packaged = if platform == LlvmTargetPlatform::Android {
        opt_string(packaged_android_sysroot)
    } else {
        None
    };
    let backend = match environment.preferred_backend {
        Some(Backend::Auto) | None => Backend::Llvm,
        Some(b) => b,
    };
    proof {
        lemma_first_target_with_triple(base, target@);
    }
    let found = find_target(&targets, target.as_str());
    match found {
        Some(k) => {
            let ghost before = targets_view(targets@);
            let existing = targets.remove(k);
            let updated = SdkTargetProfile {
                name: existing.name,
                target_triple: existing.target_triple,
                backend,
                sysroot_env: if existing.sysroot_env.is_none() { sysroot_env } else { existing.sysroot_env },
                sdk_env: if existing.sdk_env.is_none() { sdk_env } else { existing.sdk_env },
                packaged_sysroot: if existing.packaged_sysroot.is_none() { packaged } else { existing.packaged_sysroot },
            };
            targets.insert(k, updated);
            assert(targets_view(targets@) =~= before.update(k as int, updated@));
            targets
        },
        None => {
            let ghost before = targets_view(targets@);
            let fresh = SdkTargetProfile {
                name: copy_str(environment.name.as_str()),
                target_triple: copy_str(target.as_str()),
                backend,
                sysroot_env,
                sdk_env,
                packaged_sysroot: packaged,
            };
            targets.insert(0, fresh);
            assert(targets_view(targets@) =~= seq![fresh@] + before);
            targets
        },
    }
}

} // verus!

verus! {

/// The SDK supports the host itself, and the selected environment's target
/// (with the backend the environment prefers, LLVM when it prefers none in
/// particular); without an environment target the host comes first.
pub proof fn lemma_sdk_targets_cover_host_and_environment(
    host_triple: Seq<char>,
    host: LlvmTargetPlatform,
    environment: Option<(Seq<char>, Option<Seq<char>>, Option<Backend>)>,
    packaged_android_sysroot: Option<Seq<char>>,
)
    ensures
        ({
            let ts = sdk_targets_of(host_triple, host, environment, packaged_android_sysroot);
            &&& exists|i: int| 0 <= i < ts.len() && ts[i].target_triple == host_triple
            &&& !(environment matches Some((_, Some(_), _))) ==> ts[0].name == "host-native"@
                && ts[0].backend == Backend::Llvm
            &&& environment matches Some((_, Some(t), preferred)) ==> exists|i: int|
                0 <= i < ts.len() && ts[i].target_triple == t && ts[i].backend == (match preferred {
                    Some(Backend::Auto) | None => Backend::Llvm,
                    Some(b) => b,
                })
        }),
{
    let base = base_sdk_targets(host_triple, host, packaged_android_sysroot);
    lemma_first_target_with_triple(base, host_triple);
    let ts = sdk_targets_of(host_triple, host, environment, packaged_android_sysroot);
    assert(base[0].target_triple == host_triple);
    if let Some((name, Some(t), preferred)) = environment {
        lemma_first_target_with_triple(base, t);
        match first_target_with_triple(base, t) {
            Some(k) => {
                assert(ts[k].target_triple == t);
                assert(ts[0].target_triple == host_triple);
            },
            None => {
                assert(ts[0].target_triple == t);
                assert(ts[1].target_triple == host_triple);
            },
        }
    } else {
        assert(ts[0].target_triple == host_triple);
    }
}

} // verus!

verus! {

use crate::text::{ascii_lower_char, replace_char, replace_char_str, to_ascii_lower, chars_of, chars_range, string_from_chars};

/// The WSL mount path of the absolute Windows path `absolute`: with `\`
/// read as `/`, a path `X:/rest` becomes `/mnt/x/rest`; anything else has no
/// mount path.
pub open spec fn wsl_mount_of(absolute: Seq<char>) -> Result<Seq<char>, Seq<char>> {
    let r = replace_char(absolute, '\\', '/');
    if r.len() >= 3 && (r[0] as u32) < 128 && r[1] == ':' && r[2] == '/' {
        Ok("/mnt/"@ + seq![ascii_lower_char(r[0])] + "/"@ + r.skip(3))
    } else {
        Err("cannot translate path `"@ + absolute + "` into a WSL mount path"@)
    }
}

/// Where the absolute path `absolute` appears inside WSL (`/mnt/<drive>/...`).
pub fn wsl_mount_path(absolute: &str) -> (r: Result<String, String>)
    ensures
        match wsl_mount_of(absolute@) {
            Ok(p) => r is Ok && r->Ok_0@ == p,
            Err(e) => r is Err && r->Err_0@ == e,
        },
{
    let rendered = replace_char_str(absolute, '\\', '/');
    let v = chars_of(rendered.as_str());
    if v.len() >= 3 && (v[0] as u32) < 128 && v[1] == ':' && v[2] == '/' {
        let mut out = String::new();
        out.append("/mnt/");
        crate::text::push_char(&mut out, to_ascii_lower(v[0]));
        out.append("/");
        let rest = string_from_chars(&chars_range(&v, 3, v.len()));
        out.append(rest.as_str());
        assert(v@.subrange(3, v@.len() as int) =~= v@.skip(3));
        Ok(out)
    } else {
        let mut e = String::new();
        e.append("cannot translate path `");
        e.append(absolute);
        e.append("` into a WSL mount path");
        Err(e)
    }
}

} // verus!

verus! {

/// Where to look for a bundled LLVM toolchain, in order and without
/// repeats: the directory named by `AGAM_LLVM_BUNDLE_DIR`, the directory of
/// the running executable and that directory's parent (each when known).
pub fn bundled_llvm_search_roots(explicit: Option<&str>, exe_dir: Option<&str>, exe_parent: Option<&str>) -> (r: Vec<String>)
    ensures
        crate::text::strings_view(r@) == push_unique_opt(
            push_unique_opt(
                push_unique_opt(Seq::empty(), crate::driver::backend::opt_view(explicit)),
                crate::driver::backend::opt_view(exe_dir),
            ),
            crate::driver::backend::opt_view(exe_parent),
        ),
{
    let mut roots: Vec<String> = Vec::new();
    assert(crate::text::strings_view(roots@) =~= Seq::<Seq<char>>::empty());
    if let Some(e) = explicit {
        push_unique_exec(&mut roots, e);
    }
    if let Some(d) = exe_dir {
        push_unique_exec(&mut roots, d);
    }
    if let Some(p) = exe_parent {
        push_unique_exec(&mut roots, p);
    }
    roots
}

} // verus!

verus! {

use crate::text::{decimal, push_decimal, join_sep, join_strings, strings_view};

/// One line of the doctor's table: a component, its status and a detail.
/// A `verbose_only` line is shown only when verbose output was asked for.
#[derive(Clone, Debug, PartialEq, Eq)]
pub struct DoctorLine {
    pub label: String,
    pub status: String,
    pub detail: String,
    pub verbose_only: bool,
}

/// A doctor line, as values.
pub struct DoctorLineModel {
    pub label: Seq<char>,
    pub status: Seq<char>,
    pub detail: Seq<char>,
    pub verbose_only: bool,
}

impl View for DoctorLine {
    type V = DoctorLineModel;

    open spec fn view(&self) -> DoctorLineModel {
        DoctorLineModel {
            label: self.label@,
            status: self.status@,
            detail: self.detail@,
            verbose_only: self.verbose_only,
        }
    }
}

pub open spec fn lines_view(v: Seq<DoctorLine>) -> Seq<DoctorLineModel> {
    v.map_values(|l: DoctorLine| l@)
}

pub open spec fn doctor_line(
    label: Seq<char>,
    status: Seq<char>,
    detail: Seq<char>,
    verbose_only: bool,
) -> DoctorLineModel {
    DoctorLineModel { label, status, detail, verbose_only }
}

/// What probing the machine found: the bundled toolchain's directory name
/// for this machine, the clang drivers and installations located, whether
/// commands exist, and the sysroot and SDK root configured.
#[derive(Clone, Debug)]
pub struct DoctorProbes {
    pub platform_dir: String,
    pub native_driver: Option<String>,
    pub bundled_root: Option<String>,
    pub bundled_driver: Option<String>,
    pub llvm_override: Option<String>,
    pub visual_studio_install: Option<String>,
    pub visual_studio_driver: Option<String>,
    pub has_standalone_llvm_roots: bool,
    pub wsl_clang: bool,
    pub c_compiler_found: bool,
    pub android_sysroot: Option<String>,
    pub sdk_root: Option<String>,
}

/// The workspace environment the doctor checks: the compiler requirement,
/// SDK, target, preferred backend, runtime ABI and profiles it selects.
#[derive(Clone, Debug)]
pub struct DoctorEnvironment {
    pub compiler: String,
    pub sdk: Option<String>,
    pub target: Option<String>,
    pub preferred_backend: Option<Backend>,
    pub runtime_abi: Option<u32>,
    pub profiles: Vec<String>,
}

/// A doctor environment, as values.
pub struct DoctorEnvironmentModel {
    pub compiler: Seq<char>,
    pub sdk: Option<Seq<char>>,
    pub target: Option<Seq<char>>,
    pub preferred_backend: Option<Backend>,
    pub runtime_abi: Option<u32>,
    pub profiles: Seq<Seq<char>>,
}

pub open spec fn env_view(env: Option<&DoctorEnvironment>) -> Option<DoctorEnvironmentModel> {
    match env {
        Some(e) => Some(
            DoctorEnvironmentModel {
                compiler: e.compiler@,
                sdk: opt_view(e.sdk),
                target: opt_view(e.target),
                preferred_backend: e.preferred_backend,
                runtime_abi: e.runtime_abi,
                profiles: strings_view(e.profiles@),
            },
        ),
        None => None,
    }
}

pub open spec fn generic_llvm_hint() -> Seq<char> {
    "install a native LLVM/Clang toolchain, bundle one next to agamc, or set `AGAM_LLVM_CLANG`"@
}

pub open spec fn c_compiler_of(windows: bool) -> Seq<char> {
    if windows {
        "gcc"@
    } else {
        "cc"@
    }
}

/// The native LLVM line: the driver in use, or what to do without one.
pub open spec fn native_llvm_lines(p: DoctorProbes, windows: bool) -> Seq<DoctorLineModel> {
    match opt_view(p.native_driver) {
        Some(d) => seq![doctor_line("native llvm"@, "ok"@, "using `"@ + d + "`"@, false)],
        None => seq![
            doctor_line(
                "native llvm"@,
                "missing"@,
                match install_hint_of(
                    windows,
                    opt_view(p.visual_studio_install),
                    p.has_standalone_llvm_roots,
                    p.platform_dir@,
                ) {
                    Some(h) => h,
                    None => generic_llvm_hint(),
                },
                false,
            ),
        ],
    }
}

/// The bundled toolchain's root and driver.
pub open spec fn bundled_lines(p: DoctorProbes) -> Seq<DoctorLineModel> {
    let root = match opt_view(p.bundled_root) {
        Some(r) => doctor_line("bundled llvm"@, "ok"@, "bundle root `"@ + r + "`"@, false),
        None => doctor_line(
            "bundled llvm"@,
            "missing"@,
            "no bundled LLVM found; expected `toolchains/llvm/"@ + p.platform_dir@
                + "/bin` near `agamc` or set `AGAM_LLVM_BUNDLE_DIR`"@,
            false,
        ),
    };
    let driver = match opt_view(p.bundled_driver) {
        Some(d) => doctor_line("bundled driver"@, "ok"@, "driver `"@ + d + "`"@, false),
        None => doctor_line(
            "bundled driver"@,
            "missing"@,
            "no bundled clang/clang++ executable resolved from the bundle search paths"@,
            true,
        ),
    };
    seq![root, driver]
}

/// On Windows: the Visual Studio installation, its LLVM component and the
/// WSL fallback.
pub open spec fn windows_lines(p: DoctorProbes, windows: bool) -> Seq<DoctorLineModel> {
    if !windows {
        seq![]
    } else {
        let vs = match opt_view(p.visual_studio_install) {
            Some(path) => doctor_line("visual studio"@, "ok"@, "installation `"@ + path + "`"@, false),
            None => doctor_line(
                "visual studio"@,
                "missing"@,
                "Visual Studio installation not detected via vswhere"@,
                false,
            ),
        };
        let vs_llvm = match opt_view(p.visual_studio_driver) {
            Some(path) => doctor_line("visual studio llvm"@, "ok"@, "driver `"@ + path + "`"@, false),
            None => doctor_line(
                "visual studio llvm"@,
                "missing"@,
                "LLVM/Clang component is not currently installed in Visual Studio"@,
                false,
            ),
        };
        let wsl = if p.wsl_clang {
            doctor_line(
                "wsl llvm"@,
                "available"@,
                "development-only fallback; enable with `AGAM_DEV_USE_WSL_LLVM=1` for `agamc run --backend llvm`"@,
                false,
            )
        } else {
            doctor_line("wsl llvm"@, "missing"@, "WSL clang was not detected"@, true)
        };
        seq![vs, vs_llvm, wsl]
    }
}

/// The clang override, the C fallback compiler and the Android sysroot.
pub open spec fn fallback_lines(p: DoctorProbes, windows: bool) -> Seq<DoctorLineModel> {
    let over = match opt_view(p.llvm_override) {
        Some(d) => doctor_line(
            "llvm override"@,
            "configured"@,
            "`AGAM_LLVM_CLANG` -> `"@ + d + "`"@,
            false,
        ),
        None => doctor_line(
            "llvm override"@,
            "unset"@,
            "set `AGAM_LLVM_CLANG` to pin `clang` or `clang++`"@,
            true,
        ),
    };
    let cc = c_compiler_of(windows);
    let c = if p.c_compiler_found {
        doctor_line("c fallback"@, "ok"@, "`"@ + cc + "` detected"@, false)
    } else {
        doctor_line("c fallback"@, "missing"@, "`"@ + cc + "` was not detected on PATH"@, false)
    };
    let android = match opt_view(p.android_sysroot) {
        Some(path) => doctor_line("android sysroot"@, "ok"@, "resolved `"@ + path + "`"@, false),
        None => doctor_line(
            "android sysroot"@,
            "missing"@,
            "set `AGAM_LLVM_SYSROOT` or `ANDROID_NDK_HOME`/`ANDROID_NDK_ROOT` for Android LLVM builds"@,
            false,
        ),
    };
    seq![over, c, android]
}

/// Whether the environment's target `t` can be built here: status, detail
/// and whether it passes.
pub open spec fn env_target_check(p: DoctorProbes, t: Seq<char>, host: LlvmTargetPlatform) -> (
    Seq<char>,
    Seq<char>,
    bool,
) {
    match classify_platform(Some(t), host) {
        LlvmTargetPlatform::Android => match opt_view(p.android_sysroot) {
            Some(s) => ("ok"@, "target `"@ + t + "` via sysroot `"@ + s + "`"@, true),
            None => (
                "missing"@,
                "target `"@ + t
                    + "` needs `AGAM_LLVM_SYSROOT` or `ANDROID_NDK_HOME`/`ANDROID_NDK_ROOT`"@,
                false,
            ),
        },
        LlvmTargetPlatform::Ios | LlvmTargetPlatform::MacOs => match opt_view(p.sdk_root) {
            Some(s) => ("ok"@, "target `"@ + t + "` via SDK root `"@ + s + "`"@, true),
            None => ("missing"@, "target `"@ + t + "` needs `AGAM_LLVM_SDKROOT` or `SDKROOT`"@, false),
        },
        _ => ("ok"@, "target `"@ + t + "`"@, true),
    }
}

/// Whether the environment's preferred backend can be used here: status,
/// detail and whether it passes.
pub open spec fn env_backend_check(p: DoctorProbes, b: Backend, windows: bool) -> (
    Seq<char>,
    Seq<char>,
    bool,
) {
    match b {
        Backend::Llvm => if p.native_driver is Some {
            ("ok"@, "environment can use the native LLVM backend"@, true)
        } else {
            ("missing"@, "environment requests LLVM but no native LLVM toolchain was detected"@, false)
        },
        Backend::C => if p.c_compiler_found {
            ("ok"@, "environment can use `"@ + c_compiler_of(windows) + "`"@, true)
        } else {
            (
                "missing"@,
                "environment requests the C backend but `"@ + c_compiler_of(windows)
                    + "` was not detected"@,
                false,
            )
        },
        Backend::Jit => ("ok"@, "environment prefers the in-memory JIT backend"@, true),
        Backend::Auto => (
            "selected"@,
            "environment defers backend choice to normal auto-resolution"@,
            true,
        ),
    }
}

/// The line comparing the environment's runtime ABI with the host's.
pub open spec fn env_abi_line(v: u32, host_abi: u32) -> DoctorLineModel {
    doctor_line(
        "env runtime abi"@,
        if v == host_abi {
            "ok"@
        } else {
            "mismatch"@
        },
        "environment expects v"@ + decimal(v as nat) + "; host runtime exports v"@ + decimal(
            host_abi as nat,
        ),
        false,
    )
}

/// The lines about the selected environment.
pub open spec fn env_lines(
    p: DoctorProbes,
    e: DoctorEnvironmentModel,
    host_abi: u32,
    host: LlvmTargetPlatform,
) -> Seq<DoctorLineModel> {
    let windows = host == LlvmTargetPlatform::Windows;
    let compiler = seq![
        doctor_line("env compiler"@, "selected"@, "compiler requirement `"@ + e.compiler + "`"@, false),
    ];
    let sdk = match e.sdk {
        Some(s) => seq![doctor_line("env sdk"@, "selected"@, "sdk `"@ + s + "`"@, false)],
        None => seq![doctor_line("env sdk"@, "inherit"@, "no environment-specific SDK override"@, true)],
    };
    let target = match e.target {
        Some(t) => {
            let c = env_target_check(p, t, host);
            seq![doctor_line("env target"@, c.0, c.1, false)]
        },
        None => seq![doctor_line("env target"@, "inherit"@, "host-native target"@, true)],
    };
    let backend = match e.preferred_backend {
        Some(b) => {
            let c = env_backend_check(p, b, windows);
            seq![doctor_line("env backend"@, c.0, c.1, false)]
        },
        None => seq![
            doctor_line("env backend"@, "inherit"@, "no environment-specific backend override"@, true),
        ],
    };
    let abi = match e.runtime_abi {
        Some(v) => seq![env_abi_line(v, host_abi)],
        None => seq![],
    };
    let profiles = if e.profiles.len() > 0 {
        seq![
            doctor_line(
                "env profiles"@,
                "selected"@,
                "profiles `"@ + join_sep(e.profiles, ", "@) + "`"@,
                false,
            ),
        ]
    } else {
        seq![]
    };
    compiler + sdk + target + backend + abi + profiles
}

/// The doctor's table, in order: native LLVM, the bundled toolchain, the
/// Windows installations (on Windows), the override, the C fallback, the
/// Android sysroot, then the selected environment's lines.
pub open spec fn doctor_lines(
    p: DoctorProbes,
    env: Option<DoctorEnvironmentModel>,
    host_abi: u32,
    host: LlvmTargetPlatform,
) -> Seq<DoctorLineModel> {
    let windows = host == LlvmTargetPlatform::Windows;
    let base = native_llvm_lines(p, windows) + bundled_lines(p) + windows_lines(p, windows)
        + fallback_lines(p, windows);
    match env {
        Some(e) => base + env_lines(p, e, host_abi, host),
        None => base,
    }
}

/// The selected environment's target, backend and runtime ABI checks pass.
pub open spec fn env_checks_pass(
    p: DoctorProbes,
    e: DoctorEnvironmentModel,
    host_abi: u32,
    host: LlvmTargetPlatform,
) -> bool {
    let windows = host == LlvmTargetPlatform::Windows;
    &&& match e.target {
        Some(t) => env_target_check(p, t, host).2,
        None => true,
    }
    &&& match e.preferred_backend {
        Some(b) => env_backend_check(p, b, windows).2,
        None => true,
    }
    &&& match e.runtime_abi {
        Some(v) => v == host_abi,
        None => true,
    }
}

/// Whether the machine is ready: a native LLVM driver exists, and the
/// selected environment's target, backend and runtime ABI checks pass.
pub open spec fn doctor_healthy(
    p: DoctorProbes,
    env: Option<DoctorEnvironmentModel>,
    host_abi: u32,
    host: LlvmTargetPlatform,
) -> bool {
    &&& p.native_driver is Some
    &&& match env {
        None => true,
        Some(e) => env_checks_pass(p, e, host_abi, host),
    }
}

fn push_line(out: &mut Vec<DoctorLine>, label: &str, status: &str, detail: String, verbose_only: bool)
    ensures
        lines_view(final(out)@) == lines_view(old(out)@).push(
            doctor_line(label@, status@, detail@, verbose_only),
        ),
{
    out.push(DoctorLine { label: copy_str(label), status: copy_str(status), detail, verbose_only });
    assert(lines_view(out@) =~= lines_view(old(out)@).push(
        doctor_line(label@, status@, detail@, verbose_only),
    ));
}

/// `a`, `b` and `c` one after the other.
fn concat3(a: &str, b: &str, c: &str) -> (r: String)
    ensures
        r@ == a@ + b@ + c@,
{
    let mut s = copy_str(a);
    s.append(b);
    s.append(c);
    s
}

fn push_native_llvm_lines(out: &mut Vec<DoctorLine>, p: &DoctorProbes, windows: bool)
    ensures
        lines_view(final(out)@) == lines_view(old(out)@) + native_llvm_lines(*p, windows),
{
    match &p.native_driver {
        Some(d) => push_line(out, "native llvm", "ok", concat3("using `", d.as_str(), "`"), false),
        None => {
            let vs = match &p.visual_studio_install {
                Some(v) => Some(v.as_str()),
                None => None,
            };
            let hint = match windows_native_llvm_install_hint(
                windows,
                vs,
                p.has_standalone_llvm_roots,
                p.platform_dir.as_str(),
            ) {
                Some(h) => h,
                None => copy_str(
                    "install a native LLVM/Clang toolchain, bundle one next to agamc, or set `AGAM_LLVM_CLANG`",
                ),
            };
            push_line(out, "native llvm", "missing", hint, false);
        },
    }
    assert(lines_view(out@) =~= lines_view(old(out)@) + native_llvm_lines(*p, windows));
}

fn push_bundled_lines(out: &mut Vec<DoctorLine>, p: &DoctorProbes)
    ensures
        lines_view(final(out)@) == lines_view(old(out)@) + bundled_lines(*p),
{
    match &p.bundled_root {
        Some(r) => push_line(out, "bundled llvm", "ok", concat3("bundle root `", r.as_str(), "`"), false),
        None => push_line(
            out,
            "bundled llvm",
            "missing",
            concat3(
                "no bundled LLVM found; expected `toolchains/llvm/",
                p.platform_dir.as_str(),
                "/bin` near `agamc` or set `AGAM_LLVM_BUNDLE_DIR`",
            ),
            false,
        ),
    }
    match &p.bundled_driver {
        Some(d) => push_line(out, "bundled driver", "ok", concat3("driver `", d.as_str(), "`"), false),
        None => push_line(
            out,
            "bundled driver",
            "missing",
            copy_str("no bundled clang/clang++ executable resolved from the bundle search paths"),
            true,
        ),
    }
    assert(lines_view(out@) =~= lines_view(old(out)@) + bundled_lines(*p));
}

fn push_windows_lines(out: &mut Vec<DoctorLine>, p: &DoctorProbes, windows: bool)
    ensures
        lines_view(final(out)@) == lines_view(old(out)@) + windows_lines(*p, windows),
{
    if !windows {
        assert(lines_view(out@) =~= lines_view(old(out)@) + windows_lines(*p, windows));
        return;
    }
    match &p.visual_studio_install {
        Some(v) => push_line(out, "visual studio", "ok", concat3("installation `", v.as_str(), "`"), false),
        None => push_line(
            out,
            "visual studio",
            "missing",
            copy_str("Visual Studio installation not detected via vswhere"),
            false,
        ),
    }
    match &p.visual_studio_driver {
        Some(d) => push_line(out, "visual studio llvm", "ok", concat3("driver `", d.as_str(), "`"), false),
        None => push_line(
            out,
            "visual studio llvm",
            "missing",
            copy_str("LLVM/Clang component is not currently installed in Visual Studio"),
            false,
        ),
    }
    if p.wsl_clang {
        push_line(
            out,
            "wsl llvm",
            "available",
            copy_str(
                "development-only fallback; enable with `AGAM_DEV_USE_WSL_LLVM=1` for `agamc run --backend llvm`",
            ),
            false,
        );
    } else {
        push_line(out, "wsl llvm", "missing", copy_str("WSL clang was not detected"), true);
    }
    assert(lines_view(out@) =~= lines_view(old(out)@) + windows_lines(*p, windows));
}

fn push_fallback_lines(out: &mut Vec<DoctorLine>, p: &DoctorProbes, windows: bool)
    ensures
        lines_view(final(out)@) == lines_view(old(out)@) + fallback_lines(*p, windows),
{
    match &p.llvm_override {
        Some(d) => push_line(
            out,
            "llvm override",
            "configured",
            concat3("`AGAM_LLVM_CLANG` -> `", d.as_str(), "`"),
            false,
        ),
        None => push_line(
            out,
            "llvm override",
            "unset",
            copy_str("set `AGAM_LLVM_CLANG` to pin `clang` or `clang++`"),
            true,
        ),
    }
    let cc = default_c_compiler(windows);
    if p.c_compiler_found {
        push_line(out, "c fallback", "ok", concat3("`", cc, "` detected"), false);
    } else {
        push_line(out, "c fallback", "missing", concat3("`", cc, "` was not detected on PATH"), false);
    }
    match &p.android_sysroot {
        Some(s) => push_line(out, "android sysroot", "ok", concat3("resolved `", s.as_str(), "`"), false),
        None => push_line(
            out,
            "android sysroot",
            "missing",
            copy_str(
                "set `AGAM_LLVM_SYSROOT` or `ANDROID_NDK_HOME`/`ANDROID_NDK_ROOT` for Android LLVM builds",
            ),
            false,
        ),
    }
    assert(lines_view(out@) =~= lines_view(old(out)@) + fallback_lines(*p, windows));
}

/// Pushes the environment's target line and returns whether it passes.
fn push_env_target_line(out: &mut Vec<DoctorLine>, p: &DoctorProbes, t: &str, host: LlvmTargetPlatform) -> (r: bool)
    ensures
        lines_view(final(out)@) == lines_view(old(out)@).push(
            doctor_line(
                "env target"@,
                env_target_check(*p, t@, host).0,
                env_target_check(*p, t@, host).1,
                false,
            ),
        ),
        r == env_target_check(*p, t@, host).2,
{
    match classify_llvm_target_platform(Some(t), host) {
        LlvmTargetPlatform::Android => match &p.android_sysroot {
            Some(s) => {
                let mut d = concat3("target `", t, "` via sysroot `");
                d.append(s.as_str());
                d.append("`");
                push_line(out, "env target", "ok", d, false);
                true
            },
            None => {
                push_line(
                    out,
                    "env target",
                    "missing",
                    concat3(
                        "target `",
                        t,
                        "` needs `AGAM_LLVM_SYSROOT` or `ANDROID_NDK_HOME`/`ANDROID_NDK_ROOT`",
                    ),
                    false,
                );
                false
            },
        },
        LlvmTargetPlatform::Ios | LlvmTargetPlatform::MacOs => match &p.sdk_root {
            Some(s) => {
                let mut d = concat3("target `", t, "` via SDK root `");
                d.append(s.as_str());
                d.append("`");
                push_line(out, "env target", "ok", d, false);
                true
            },
            None => {
                push_line(
                    out,
                    "env target",
                    "missing",
                    concat3("target `", t, "` needs `AGAM_LLVM_SDKROOT` or `SDKROOT`"),
                    false,
                );
                false
            },
        },
        _ => {
            push_line(out, "env target", "ok", concat3("target `", t, "`"), false);
            true
        },
    }
}

/// Pushes the environment's backend line and returns whether it passes.
fn push_env_backend_line(out: &mut Vec<DoctorLine>, p: &DoctorProbes, b: Backend, windows: bool) -> (r: bool)
    ensures
        lines_view(final(out)@) == lines_view(old(out)@).push(
            doctor_line(
                "env backend"@,
                env_backend_check(*p, b, windows).0,
                env_backend_check(*p, b, windows).1,
                false,
            ),
        ),
        r == env_backend_check(*p, b, windows).2,
{
    match b {
        Backend::Llvm => {
            if p.native_driver.is_some() {
                push_line(out, "env backend", "ok", copy_str("environment can use the native LLVM backend"), false);
                true
            } else {
                push_line(
                    out,
                    "env backend",
                    "missing",
                    copy_str("environment requests LLVM but no native LLVM toolchain was detected"),
                    false,
                );
                false
            }
        },
        Backend::C => {
            let cc = default_c_compiler(windows);
            if p.c_compiler_found {
                push_line(out, "env backend", "ok", concat3("environment can use `", cc, "`"), false);
                true
            } else {
                push_line(
                    out,
                    "env backend",
                    "missing",
                    concat3("environment requests the C backend but `", cc, "` was not detected"),
                    false,
                );
                false
            }
        },
        Backend::Jit => {
            push_line(out, "env backend", "ok", copy_str("environment prefers the in-memory JIT backend"), false);
            true
        },
        Backend::Auto => {
            push_line(
                out,
                "env backend",
                "selected",
                copy_str("environment defers backend choice to normal auto-resolution"),
                false,
            );
            true
        },
    }
}

/// Pushes the lines about the selected environment and returns whether its
/// checks pass.
#[verifier::rlimit(60)]
#[verifier::spinoff_prover]
fn push_env_lines(
    out: &mut Vec<DoctorLine>,
    p: &DoctorProbes,
    e: &DoctorEnvironment,
    host_abi: u32,
    host: LlvmTargetPlatform,
) -> (r: bool)
    ensures
        lines_view(final(out)@) == lines_view(old(out)@) + env_lines(*p, env_view(Some(e))->0, host_abi, host),
        r == env_checks_pass(*p, env_view(Some(e))->0, host_abi, host),
{
    let windows = matches!(host, LlvmTargetPlatform::Windows);
    let ghost m = env_view(Some(e))->0;
    let ghost start = lines_view(out@);
    push_line(out, "env compiler", "selected", concat3("compiler requirement `", e.compiler.as_str(), "`"), false);
    match &e.sdk {
        Some(s) => push_line(out, "env sdk", "selected", concat3("sdk `", s.as_str(), "`"), false),
        None => push_line(out, "env sdk", "inherit", copy_str("no environment-specific SDK override"), true),
    }
    let target_ok = match &e.target {
        Some(t) => push_env_target_line(out, p, t.as_str(), host),
        None => {
            push_line(out, "env target", "inherit", copy_str("host-native target"), true);
            true
        },
    };
    let backend_ok = match e.preferred_backend {
        Some(b) => push_env_backend_line(out, p, b, windows),
        None => {
            push_line(out, "env backend", "inherit", copy_str("no environment-specific backend override"), true);
            true
        },
    };
    let abi_ok = match e.runtime_abi {
        Some(v) => {
            let ok = v == host_abi;
            let mut d = copy_str("environment expects v");
            push_decimal(&mut d, v as u128);
            d.append("; host runtime exports v");
            push_decimal(&mut d, host_abi as u128);
            push_line(out, "env runtime abi", if ok { "ok" } else { "mismatch" }, d, false);
            ok
        },
        None => true,
    };
    if e.profiles.len() > 0 {
        let joined = join_strings(&e.profiles, ", ");
        push_line(out, "env profiles", "selected", concat3("profiles `", joined.as_str(), "`"), false);
    }
    assert(lines_view(out@) =~= start + env_lines(*p, m, host_abi, host));
    target_ok && backend_ok && abi_ok
}

/// The doctor's table, and whether the machine is ready, for what probing
/// found (`probes`), the selected environment (if any), the runtime ABI this
/// host exports and the host's platform.
pub fn doctor_report(
    probes: &DoctorProbes,
    env: Option<&DoctorEnvironment>,
    host_runtime_abi: u32,
    host: LlvmTargetPlatform,
) -> (r: (Vec<DoctorLine>, bool))
    ensures
        lines_view(r.0@) == doctor_lines(*probes, env_view(env), host_runtime_abi, host),
        r.1 == doctor_healthy(*probes, env_view(env), host_runtime_abi, host),
{
    let windows = matches!(host, LlvmTargetPlatform::Windows);
    let mut out: Vec<DoctorLine> = Vec::new();
    assert(lines_view(out@) =~= Seq::<DoctorLineModel>::empty());
    push_native_llvm_lines(&mut out, probes, windows);
    push_bundled_lines(&mut out, probes);
    push_windows_lines(&mut out, probes, windows);
    push_fallback_lines(&mut out, probes, windows);
    let ghost base = lines_view(out@);
    assert(base =~= doctor_lines(*probes, None, host_runtime_abi, host));
    let mut healthy = probes.native_driver.is_some();
    match env {
        Some(e) => {
            let ok = push_env_lines(&mut out, probes, e, host_runtime_abi, host);
            healthy = healthy && ok;
            assert(lines_view(out@) =~= doctor_lines(*probes, env_view(env), host_runtime_abi, host));
        },
        None => {},
    }
    (out, healthy)
}

} // verus!
