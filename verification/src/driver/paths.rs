//! Paths of the driver's inputs and artifacts.
//!
//! Paths are `/`-separated text. Joining follows `Path::join` (an absolute
//! right-hand side replaces the left one); the file name is the text after
//! the last `/` once trailing `/` and `.` components are dropped, and there
//! is none when that text is empty, `.` or `..`; stems and extensions split the file name at
//! its last `.`, as `Path::file_stem` and `Path::extension` do.

use vstd::prelude::*;
use crate::text::{chars_of, copy_str, string_from_chars, chars_range, push_chars, strings_view};

verus! {

pub open spec fn strip_trailing_slashes(p: Seq<char>) -> Seq<char>
    decreases p.len(),
{
    if p.len() > 0 && p.last() == '/' {
        strip_trailing_slashes(p.drop_last())
    } else {
        p
    }
}

/// `p` without trailing `/` and trailing `.` components (a `.` right after
/// a `/`), as `Path::components` drops them.
pub open spec fn trim_path_tail(p: Seq<char>) -> Seq<char>
    decreases p.len(),
{
    if p.len() > 0 && p.last() == '/' {
        trim_path_tail(p.drop_last())
    } else if p.len() >= 2 && p.last() == '.' && p[p.len() - 2] == '/' {
        trim_path_tail(p.drop_last())
    } else {
        p
    }
}

/// Index of the last `c` in `s`, or `-1`.
pub open spec fn last_index(s: Seq<char>, c: char) -> int
    decreases s.len(),
{
    if s.len() == 0 {
        -1
    } else if s.last() == c {
        s.len() - 1
    } else {
        last_index(s.drop_last(), c)
    }
}

/// `b` appended to `a` as a path component.
pub open spec fn join_path(a: Seq<char>, b: Seq<char>) -> Seq<char> {
    if b.len() > 0 && b[0] == '/' {
        b
    } else if a.len() == 0 {
        b
    } else if a.last() == '/' {
        a + b
    } else {
        a + seq!['/'] + b
    }
}

pub open spec fn file_name_of(p: Seq<char>) -> Option<Seq<char>> {
    let t = trim_path_tail(p);
    let n = t.skip(last_index(t, '/') + 1);
    if n.len() == 0 || n == "."@ || n == ".."@ {
        None
    } else {
        Some(n)
    }
}

pub open spec fn parent_of(p: Seq<char>) -> Seq<char> {
    let t = trim_path_tail(p);
    let i = last_index(t, '/');
    if i < 0 {
        seq![]
    } else if trim_path_tail(t.take(i)).len() == 0 {
        seq!['/']
    } else {
        trim_path_tail(t.take(i))
    }
}

/// The stem of a file name: everything before its last `.`, unless that
/// `.` leads the name or there is none.
pub open spec fn stem_of_name(n: Seq<char>) -> Seq<char> {
    let i = last_index(n, '.');
    if n == ".."@ || i <= 0 {
        n
    } else {
        n.take(i)
    }
}

pub open spec fn file_stem_of(p: Seq<char>) -> Option<Seq<char>> {
    match file_name_of(p) {
        Some(n) => Some(stem_of_name(n)),
        None => None,
    }
}

/// `p` with its extension replaced by `ext` (removed when `ext` is empty).
pub open spec fn with_extension_of(p: Seq<char>, ext: Seq<char>) -> Seq<char> {
    match file_name_of(p) {
        None => p,
        Some(n) => {
            let t = trim_path_tail(p);
            let base = t.take(t.len() - n.len()) + stem_of_name(n);
            if ext.len() == 0 {
                base
            } else {
                base + seq!['.'] + ext
            }
        },
    }
}

/// `p` with its file name replaced by `name`.
pub open spec fn with_file_name_of(p: Seq<char>, name: Seq<char>) -> Seq<char> {
    if file_name_of(p) is Some {
        join_path(parent_of(p), name)
    } else {
        join_path(p, name)
    }
}

proof fn lemma_last_index(s: Seq<char>, c: char)
    ensures
        -1 <= last_index(s, c) < s.len(),
        last_index(s, c) >= 0 ==> s[last_index(s, c)] == c,
        forall|k: int| last_index(s, c) < k < s.len() ==> s[k] != c,
    decreases s.len(),
{
    if s.len() > 0 && s.last() != c {
        let d = s.drop_last();
        lemma_last_index(d, c);
        assert forall|k: int| last_index(s, c) < k < s.len() implies s[k] != c by {
            if k < s.len() - 1 {
                assert(s[k] == d[k]);
            }
        }
    }
}

/// Length of `v[..end]` without its trailing `/`.
fn stripped_len(v: &Vec<char>, end: usize) -> (r: usize)
    requires
        end <= v.len(),
    ensures
        r <= end,
        v@.take(r as int) == strip_trailing_slashes(v@.take(end as int)),
{
    let mut t = end;
    while t > 0 && v[t - 1] == '/'
        invariant
            t <= end <= v.len(),
            strip_trailing_slashes(v@.take(t as int)) == strip_trailing_slashes(v@.take(end as int)),
        decreases t,
    {
        assert(v@.take(t as int).drop_last() =~= v@.take(t - 1));
        t -= 1;
    }
    assert(v@.take(t as int) =~= strip_trailing_slashes(v@.take(t as int)));
    t
}

/// Length of `v[..end]` without its trailing `/` and `.` components.
fn trimmed_len(v: &Vec<char>, end: usize) -> (r: usize)
    requires
        end <= v.len(),
    ensures
        r <= end,
        v@.take(r as int) == trim_path_tail(v@.take(end as int)),
{
    let mut t = end;
    while t > 0 && (v[t - 1] == '/' || t >= 2 && v[t - 1] == '.' && v[t - 2] == '/')
        invariant
            t <= end <= v.len(),
            trim_path_tail(v@.take(t as int)) == trim_path_tail(v@.take(end as int)),
        decreases t,
    {
        assert(v@.take(t as int).drop_last() =~= v@.take(t - 1));
        t -= 1;
    }
    assert(v@.take(t as int) =~= trim_path_tail(v@.take(t as int)));
    t
}

/// Index of the last `c` in `v[..end]`.
fn last_index_exec(v: &Vec<char>, end: usize, c: char) -> (r: Option<usize>)
    requires
        end <= v.len(),
    ensures
        match r {
            Some(i) => i as int == last_index(v@.take(end as int), c),
            None => last_index(v@.take(end as int), c) == -1,
        },
{
    let mut i = end;
    while i > 0 && v[i - 1] != c
        invariant
            i <= end <= v.len(),
            last_index(v@.take(i as int), c) == last_index(v@.take(end as int), c),
        decreases i,
    {
        assert(v@.take(i as int).drop_last() =~= v@.take(i - 1));
        i -= 1;
    }
    if i == 0 {
        None
    } else {
        Some(i - 1)
    }
}

/// `b` appended to `a` as a path component (`Path::join`).
pub fn path_join(a: &str, b: &str) -> (r: String)
    ensures
        r@ == join_path(a@, b@),
{
    let av = chars_of(a);
    let bv = chars_of(b);
    if bv.len() > 0 && bv[0] == '/' {
        return copy_str(b);
    }
    if av.len() == 0 {
        return copy_str(b);
    }
    let mut out = copy_str(a);
    if av[av.len() - 1] != '/' {
        out.append("/");
        proof {
            reveal_strlit("/");
        }
    }
    out.append(b);
    assert(out@ =~= join_path(a@, b@));
    out
}

/// Final component of a path (`Path::file_name`).
pub fn file_name(p: &str) -> (r: Option<String>)
    ensures
        match r {
            Some(s) => file_name_of(p@) == Some(s@),
            None => file_name_of(p@) is None,
        },
{
    let v = chars_of(p);
    let t = trimmed_len(&v, v.len());
    assert(v@.take(v.len() as int) =~= v@);
    proof {
        lemma_last_index(v@.take(t as int), '/');
    }
    let start = match last_index_exec(&v, t, '/') {
        Some(i) => i + 1,
        None => 0,
    };
    let name = chars_range(&v, start, t);
    assert(name@ =~= trim_path_tail(p@).skip(last_index(trim_path_tail(p@), '/') + 1));
    let dot = chars_of(".");
    let dotdot = chars_of("..");
    if name.len() == 0 || crate::text::starts_with_chars(&name, &dot) && name.len() == 1
        || crate::text::starts_with_chars(&name, &dotdot) && name.len() == 2 {
        proof {
            reveal_strlit(".");
            reveal_strlit("..");
            if name.len() == 1 && name@.take(1) == "."@ {
                assert(name@ =~= "."@);
            }
            if name.len() == 2 && name@.take(2) == ".."@ {
                assert(name@ =~= ".."@);
            }
        }
        None
    } else {
        proof {
            reveal_strlit(".");
            reveal_strlit("..");
            if name@ == "."@ {
                assert(name@.take(1) =~= "."@);
            }
            if name@ == ".."@ {
                assert(name@.take(2) =~= ".."@);
            }
        }
        Some(string_from_chars(&name))
    }
}


/// Stem of a file name (see `stem_of_name`).
fn stem_of_name_exec(n: &Vec<char>) -> (r: Vec<char>)
    ensures
        r@ == stem_of_name(n@),
{
    proof {
        reveal_strlit("..");
    }
    let dotdot = chars_of("..");
    let is_dotdot = n.len() == 2 && crate::text::starts_with_chars(n, &dotdot);
    proof {
        if n@ == ".."@ {
            assert(n@.take(2) =~= ".."@);
        }
        if is_dotdot {
            assert(n@ =~= ".."@);
        }
    }
    let i = last_index_exec(n, n.len(), '.');
    assert(n@.take(n.len() as int) =~= n@);
    proof {
        lemma_last_index(n@, '.');
    }
    if is_dotdot {
        return chars_range(n, 0, n.len());
    }
    match i {
        Some(i) => {
            if i == 0 {
                chars_range(n, 0, n.len())
            } else {
                chars_range(n, 0, i)
            }
        },
        None => chars_range(n, 0, n.len()),
    }
}

/// Where the file name of `p` starts and where `p` ends once trailing `/`
/// are dropped, when `p` has a file name.
fn name_bounds(v: &Vec<char>) -> (r: Option<(usize, usize)>)
    ensures
        match r {
            Some((start, t)) => {
                &&& start <= t <= v@.len()
                &&& v@.take(t as int) == trim_path_tail(v@)
                &&& file_name_of(v@) == Some(v@.subrange(start as int, t as int))
            },
            None => file_name_of(v@) is None,
        },
{
    let t = trimmed_len(v, v.len());
    assert(v@.take(v.len() as int) =~= v@);
    proof {
        lemma_last_index(v@.take(t as int), '/');
    }
    let start = match last_index_exec(v, t, '/') {
        Some(i) => i + 1,
        None => 0,
    };
    assert(v@.subrange(start as int, t as int) =~= trim_path_tail(v@).skip(
        last_index(trim_path_tail(v@), '/') + 1,
    ));
    let name = chars_range(v, start, t);
    proof {
        reveal_strlit(".");
        reveal_strlit("..");
    }
    let dot = chars_of(".");
    let dotdot = chars_of("..");
    let is_dot = name.len() == 1 && crate::text::starts_with_chars(&name, &dot);
    let is_dotdot = name.len() == 2 && crate::text::starts_with_chars(&name, &dotdot);
    proof {
        if name@ == "."@ {
            assert(name@.take(1) =~= "."@);
        }
        if name@ == ".."@ {
            assert(name@.take(2) =~= ".."@);
        }
        if is_dot {
            assert(name@ =~= "."@);
        }
        if is_dotdot {
            assert(name@ =~= ".."@);
        }
    }
    if name.len() == 0 || is_dot || is_dotdot {
        None
    } else {
        Some((start, t))
    }
}

/// Stem of the file name of `p` (`Path::file_stem`).
pub fn file_stem(p: &str) -> (r: Option<String>)
    ensures
        match r {
            Some(s) => file_stem_of(p@) == Some(s@),
            None => file_stem_of(p@) is None,
        },
{
    let v = chars_of(p);
    match name_bounds(&v) {
        Some((start, t)) => {
            let n = chars_range(&v, start, t);
            let stem = stem_of_name_exec(&n);
            Some(string_from_chars(&stem))
        },
        None => None,
    }
}

/// `p` with its extension replaced by `ext` (`Path::with_extension`).
pub fn with_extension(p: &str, ext: &str) -> (r: String)
    ensures
        r@ == with_extension_of(p@, ext@),
{
    let v = chars_of(p);
    match name_bounds(&v) {
        Some((start, t)) => {
            let n = chars_range(&v, start, t);
            let stem = stem_of_name_exec(&n);
            let head = chars_range(&v, 0, start);
            let mut out = string_from_chars(&head);
            push_chars(&mut out, &stem);
            assert(v@.take(t as int).take(t - n@.len()) =~= head@);
            if !ext.is_empty() {
                out.append(".");
                out.append(ext);
                proof {
                    reveal_strlit(".");
                }
            }
            assert(out@ =~= with_extension_of(p@, ext@));
            out
        },
        None => copy_str(p),
    }
}

/// The directory holding `p` (`Path::parent`, `""` for a bare name).
fn parent_exec(v: &Vec<char>) -> (r: String)
    ensures
        r@ == parent_of(v@),
{
    let t = trimmed_len(v, v.len());
    assert(v@.take(v.len() as int) =~= v@);
    match last_index_exec(v, t, '/') {
        None => String::new(),
        Some(i) => {
            proof {
                lemma_last_index(v@.take(t as int), '/');
            }
            let h = trimmed_len(v, i);
            assert(v@.take(t as int).take(i as int) =~= v@.take(i as int));
            if h == 0 {
                proof {
                    reveal_strlit("/");
                }
                copy_str("/")
            } else {
                let head = chars_range(v, 0, h);
                assert(head@ =~= v@.take(h as int));
                string_from_chars(&head)
            }
        },
    }
}

/// `p` with its file name replaced by `name` (`Path::with_file_name`).
pub fn with_file_name(p: &str, name: &str) -> (r: String)
    ensures
        r@ == with_file_name_of(p@, name@),
{
    let v = chars_of(p);
    match name_bounds(&v) {
        Some(_) => {
            let parent = parent_exec(&v);
            path_join(parent.as_str(), name)
        },
        None => path_join(p, name),
    }
}
} // verus!

verus! {

use crate::driver::backend::{classify_platform, opt_view, LlvmTargetPlatform, native_binary_extension};

/// `root` followed by each segment as a path component.
pub open spec fn join_all(root: Seq<char>, segs: Seq<Seq<char>>) -> Seq<char>
    decreases segs.len(),
{
    if segs.len() == 0 {
        root
    } else {
        join_path(join_all(root, segs.drop_last()), segs.last())
    }
}

pub open spec fn strs_view(v: Seq<&str>) -> Seq<Seq<char>> {
    v.map_values(|s: &str| s@)
}

/// `root` followed by each segment as a path component.
pub fn join_segments(root: &str, segs: &Vec<&str>) -> (r: String)
    ensures
        r@ == join_all(root@, strs_view(segs@)),
{
    let mut out = copy_str(root);
    let mut i: usize = 0;
    let ghost all = strs_view(segs@);
    assert(all.take(0) =~= Seq::<Seq<char>>::empty());
    while i < segs.len()
        invariant
            i <= segs@.len(),
            all == strs_view(segs@),
            out@ == join_all(root@, all.take(i as int)),
        decreases segs@.len() - i,
    {
        assert(all.take(i + 1).drop_last() =~= all.take(i as int));
        out = path_join(out.as_str(), segs[i]);
        i += 1;
    }
    assert(all.take(segs@.len() as int) =~= all);
    out
}

/// Default native binary next to `source`: its stem (or `a.out`), with an
/// `exe` extension for Windows targets.
pub open spec fn default_binary_path(source: Seq<char>, target: Option<Seq<char>>, host: LlvmTargetPlatform) -> Seq<char> {
    let stem = match file_stem_of(source) {
        Some(s) => s,
        None => "a.out"@,
    };
    let out = with_file_name_of(source, stem);
    if classify_platform(target, host) == LlvmTargetPlatform::Windows {
        with_extension_of(out, "exe"@)
    } else {
        out
    }
}

pub fn default_native_binary_output_path(source: &str, target: Option<&str>, host: LlvmTargetPlatform) -> (r: String)
    ensures
        r@ == default_binary_path(source@, opt_view(target), host),
{
    let stem = match file_stem(source) {
        Some(s) => s,
        None => copy_str("a.out"),
    };
    let output = with_file_name(source, stem.as_str());
    if native_binary_extension(target, host).is_some() {
        with_extension(output.as_str(), "exe")
    } else {
        output
    }
}

/// Candidate clang drivers of a Visual Studio installation.
pub fn visual_studio_llvm_candidate_paths(install_root: &str) -> (r: Vec<String>)
    ensures
        strings_view(r@) == seq![
            join_all(install_root@, seq!["VC"@, "Tools"@, "Llvm"@, "x64"@, "bin"@, "clang.exe"@]),
            join_all(install_root@, seq!["VC"@, "Tools"@, "Llvm"@, "bin"@, "clang.exe"@]),
            join_all(install_root@, seq!["VC"@, "Tools"@, "Llvm"@, "arm64"@, "bin"@, "clang.exe"@]),
        ],
{
    let a = join_segments(install_root, &vec!["VC", "Tools", "Llvm", "x64", "bin", "clang.exe"]);
    let b = join_segments(install_root, &vec!["VC", "Tools", "Llvm", "bin", "clang.exe"]);
    let c = join_segments(install_root, &vec!["VC", "Tools", "Llvm", "arm64", "bin", "clang.exe"]);
    let out = vec![a, b, c];
    assert(strings_view(out@) =~= seq![a@, b@, c@]);
    assert(strs_view(seq!["VC", "Tools", "Llvm", "x64", "bin", "clang.exe"]) =~= seq!["VC"@, "Tools"@, "Llvm"@, "x64"@, "bin"@, "clang.exe"@]);
    assert(strs_view(seq!["VC", "Tools", "Llvm", "bin", "clang.exe"]) =~= seq!["VC"@, "Tools"@, "Llvm"@, "bin"@, "clang.exe"@]);
    assert(strs_view(seq!["VC", "Tools", "Llvm", "arm64", "bin", "clang.exe"]) =~= seq!["VC"@, "Tools"@, "Llvm"@, "arm64"@, "bin"@, "clang.exe"@]);
    out
}

/// File names of the clang drivers on the host (`.exe` on Windows).
pub fn llvm_driver_file_names(windows: bool) -> (r: Vec<&'static str>)
    ensures
        strs_view(r@) == (if windows {
            seq!["clang.exe"@, "clang++.exe"@]
        } else {
            seq!["clang"@, "clang++"@]
        }),
{
    let r = if windows { vec!["clang.exe", "clang++.exe"] } else { vec!["clang", "clang++"] };
    assert(strs_view(r@) =~= (if windows {
        seq!["clang.exe"@, "clang++.exe"@]
    } else {
        seq!["clang"@, "clang++"@]
    }));
    r
}

/// Candidate clang drivers of a standalone LLVM installation.
pub fn standalone_windows_llvm_candidate_paths(install_root: &str, windows: bool) -> (r: Vec<String>)
    ensures
        strings_view(r@) == strs_view(llvm_driver_names(windows)).map_values(
            |d: Seq<char>| join_all(install_root@, seq!["bin"@, d]),
        ),
{
    let drivers = llvm_driver_file_names(windows);
    let mut out: Vec<String> = Vec::new();
    let mut i: usize = 0;
    let ghost target = strs_view(drivers@).map_values(|d: Seq<char>| join_all(install_root@, seq!["bin"@, d]));
    while i < drivers.len()
        invariant
            i <= drivers@.len(),
            target == strs_view(drivers@).map_values(|d: Seq<char>| join_all(install_root@, seq!["bin"@, d])),
            strings_view(out@) == target.take(i as int),
        decreases drivers@.len() - i,
    {
        let p = join_segments(install_root, &vec!["bin", drivers[i]]);
        assert(strs_view(seq!["bin", drivers@[i as int]]) =~= seq!["bin"@, drivers@[i as int]@]);
        let ghost prev = strings_view(out@);
        out.push(p);
        assert(strings_view(out@) =~= prev.push(p@));
        assert(target.take(i + 1) =~= target.take(i as int).push(target[i as int]));
        i += 1;
    }
    assert(target.take(drivers@.len() as int) =~= target);
    proof {
        lemma_driver_names(windows, drivers@);
    }
    out
}

pub open spec fn llvm_driver_names(windows: bool) -> Seq<&'static str> {
    if windows {
        seq!["clang.exe", "clang++.exe"]
    } else {
        seq!["clang", "clang++"]
    }
}

proof fn lemma_driver_names(windows: bool, d: Seq<&'static str>)
    requires
        strs_view(d) == (if windows {
            seq!["clang.exe"@, "clang++.exe"@]
        } else {
            seq!["clang"@, "clang++"@]
        }),
    ensures
        strs_view(d) == strs_view(llvm_driver_names(windows)),
{
    assert(strs_view(llvm_driver_names(windows)) =~= strs_view(d));
}

} // verus!

verus! {

/// The places a bundled clang driver `d` may sit under `root`.
pub open spec fn bundled_candidates_for(root: Seq<char>, platform: Seq<char>, d: Seq<char>) -> Seq<Seq<char>> {
    seq![
        join_all(root, seq![d]),
        join_all(root, seq!["bin"@, d]),
        join_all(root, seq![platform, "bin"@, d]),
        join_all(root, seq!["llvm"@, "bin"@, d]),
        join_all(root, seq!["llvm"@, platform, "bin"@, d]),
        join_all(root, seq!["toolchains"@, "llvm"@, "bin"@, d]),
        join_all(root, seq!["toolchains"@, "llvm"@, platform, "bin"@, d]),
    ]
}

pub open spec fn bundled_candidates(root: Seq<char>, platform: Seq<char>, drivers: Seq<Seq<char>>) -> Seq<Seq<char>>
    decreases drivers.len(),
{
    if drivers.len() == 0 {
        seq![]
    } else {
        bundled_candidates(root, platform, drivers.drop_last()) + bundled_candidates_for(
            root,
            platform,
            drivers.last(),
        )
    }
}

/// Candidate clang drivers of a bundled LLVM toolchain rooted at `root`;
/// `platform_dir` names the host platform (such as `linux-x86_64`).
pub fn bundled_llvm_candidate_paths(root: &str, windows: bool, platform_dir: &str) -> (r: Vec<String>)
    ensures
        strings_view(r@) == bundled_candidates(root@, platform_dir@, strs_view(llvm_driver_names(windows))),
{
    let drivers = llvm_driver_file_names(windows);
    proof {
        lemma_driver_names(windows, drivers@);
    }
    let ghost dv = strs_view(drivers@);
    let mut out: Vec<String> = Vec::new();
    let mut i: usize = 0;
    assert(dv.take(0) =~= Seq::<Seq<char>>::empty());
    while i < drivers.len()
        invariant
            i <= drivers@.len(),
            dv == strs_view(drivers@),
            strings_view(out@) == bundled_candidates(root@, platform_dir@, dv.take(i as int)),
        decreases drivers@.len() - i,
    {
        let d = drivers[i];
        let ghost prev = strings_view(out@);
        let p0 = path_join(root, d);
        assert(seq![d@].drop_last() =~= Seq::<Seq<char>>::empty());
        assert(join_all(root@, Seq::<Seq<char>>::empty()) == root@);
        assert(seq![d@].last() == d@);
        let p1 = join_segments(root, &vec!["bin", d]);
        let p2 = join_segments(root, &vec![platform_dir, "bin", d]);
        let p3 = join_segments(root, &vec!["llvm", "bin", d]);
        let p4 = join_segments(root, &vec!["llvm", platform_dir, "bin", d]);
        let p5 = join_segments(root, &vec!["toolchains", "llvm", "bin", d]);
        let p6 = join_segments(root, &vec!["toolchains", "llvm", platform_dir, "bin", d]);
        assert(strs_view(seq!["bin", d]) =~= seq!["bin"@, d@]);
        assert(strs_view(seq![platform_dir, "bin", d]) =~= seq![platform_dir@, "bin"@, d@]);
        assert(strs_view(seq!["llvm", "bin", d]) =~= seq!["llvm"@, "bin"@, d@]);
        assert(strs_view(seq!["llvm", platform_dir, "bin", d]) =~= seq!["llvm"@, platform_dir@, "bin"@, d@]);
        assert(strs_view(seq!["toolchains", "llvm", "bin", d]) =~= seq!["toolchains"@, "llvm"@, "bin"@, d@]);
        assert(strs_view(seq!["toolchains", "llvm", platform_dir, "bin", d]) =~= seq!["toolchains"@, "llvm"@, platform_dir@, "bin"@, d@]);
        assert(p0@ == join_all(root@, seq![d@]));
        assert(p1@ == join_all(root@, seq!["bin"@, d@]));
        assert(p2@ == join_all(root@, seq![platform_dir@, "bin"@, d@]));
        assert(p3@ == join_all(root@, seq!["llvm"@, "bin"@, d@]));
        assert(p4@ == join_all(root@, seq!["llvm"@, platform_dir@, "bin"@, d@]));
        assert(p5@ == join_all(root@, seq!["toolchains"@, "llvm"@, "bin"@, d@]));
        assert(p6@ == join_all(root@, seq!["toolchains"@, "llvm"@, platform_dir@, "bin"@, d@]));
        let ghost prev_out = out@;
        let ghost expected = seq![p0@, p1@, p2@, p3@, p4@, p5@, p6@];
        assert(expected =~= bundled_candidates_for(root@, platform_dir@, d@));
        out.push(p0);
        out.push(p1);
        out.push(p2);
        out.push(p3);
        out.push(p4);
        out.push(p5);
        out.push(p6);
        assert(dv.take(i + 1).drop_last() =~= dv.take(i as int));
        assert(dv.take(i + 1).last() == d@);
        assert(out@ =~= prev_out + seq![p0, p1, p2, p3, p4, p5, p6]);
        assert(strings_view(out@) =~= prev + expected);
        i += 1;
    }
    assert(dv.take(drivers@.len() as int) =~= dv);
    out
}

/// `<root>/.agam_cache/daemon/<file>`.
fn daemon_file(root: &str, file: &str) -> (r: String)
    ensures
        r@ == join_all(root@, seq![".agam_cache"@, "daemon"@, file@]),
{
    let r = join_segments(root, &vec![".agam_cache", "daemon", file]);
    assert(strs_view(seq![".agam_cache", "daemon", file]) =~= seq![".agam_cache"@, "daemon"@, file@]);
    r
}

/// Where the daemon records its status.
pub fn daemon_status_path(root: &str) -> (r: String)
    ensures
        r@ == join_all(root@, seq![".agam_cache"@, "daemon"@, "status.json"@]),
{
    daemon_file(root, "status.json")
}

/// Where the background daemon records its process id.
pub fn daemon_pid_path(root: &str) -> (r: String)
    ensures
        r@ == join_all(root@, seq![".agam_cache"@, "daemon"@, "daemon.pid"@]),
{
    daemon_file(root, "daemon.pid")
}

/// The file whose presence asks the daemon to shut down.
pub fn daemon_shutdown_path(root: &str) -> (r: String)
    ensures
        r@ == join_all(root@, seq![".agam_cache"@, "daemon"@, "shutdown_requested"@]),
{
    daemon_file(root, "shutdown_requested")
}

/// Where the daemon records its IPC port.
pub fn daemon_port_path(root: &str) -> (r: String)
    ensures
        r@ == join_all(root@, seq![".agam_cache"@, "daemon"@, "daemon.port"@]),
{
    daemon_file(root, "daemon.port")
}

/// Directory of the daemon's prewarmed artifacts.
pub fn daemon_prewarm_stage_dir(root: &str) -> (r: String)
    ensures
        r@ == join_all(root@, seq![".agam_cache"@, "daemon"@, "prewarm"@]),
{
    daemon_file(root, "prewarm")
}

/// Manifest path of the REPL buffer `filename`, relative to the workspace.
pub fn repl_workspace_entry_relative_path(filename: &str) -> (r: String)
    ensures
        r@ == "src/"@ + filename@,
{
    crate::text::concat2("src/", filename)
}

/// Path of the REPL buffer `filename` under the REPL workspace `root`.
pub fn repl_workspace_entry_path(root: &str, filename: &str) -> (r: String)
    ensures
        r@ == join_all(root@, seq!["src"@, filename@]),
{
    let r = join_segments(root, &vec!["src", filename]);
    assert(strs_view(seq!["src", filename]) =~= seq!["src"@, filename@]);
    r
}

/// Default output directory of an SDK distribution for the host platform.
pub fn default_sdk_distribution_output_dir(platform_dir: &str) -> (r: String)
    ensures
        r@ == join_path("dist"@, platform_dir@),
{
    path_join("dist", platform_dir)
}

/// Where an LLVM run records its call profile, next to `output`.
pub fn llvm_profile_capture_path(output: &str) -> (r: String)
    ensures
        r@ == with_extension_of(output@, "llvm_call_profile.txt"@),
{
    with_extension(output, "llvm_call_profile.txt")
}

} // verus!

verus! {

use crate::text::{trim, trim_ws, occurs_at, occurs_at_chars, replace_char, replace_char_str, starts_with, starts_with_chars};

/// A `..` component occurs in `s`.
pub open spec fn has_parent_component(s: Seq<char>) -> bool {
    exists|i: int|
        #![trigger occurs_at(s, ".."@, i)]
        occurs_at(s, ".."@, i) && (i == 0 || s[i - 1] == '/') && (i + 2 == s.len() || s[i + 2] == '/')
}

fn has_parent_component_exec(v: &Vec<char>) -> (r: bool)
    ensures
        r == has_parent_component(v@),
{
    let dd = chars_of("..");
    proof {
        reveal_strlit("..");
    }
    let mut i: usize = 0;
    while i < v.len()
        invariant
            i <= v.len(),
            dd@ == ".."@,
            dd@.len() == 2,
            forall|k: int|
                0 <= k < i ==> !(occurs_at(v@, ".."@, k) && (k == 0 || v@[k - 1] == '/') && (k + 2
                    == v@.len() || v@[k + 2] == '/')),
        decreases v.len() - i,
    {
        if occurs_at_chars(v, &dd, i) && (i == 0 || v[i - 1] == '/') && (i + 2 == v.len() || v[i
            + 2] == '/') {
            return true;
        }
        i += 1;
    }
    proof {
        if has_parent_component(v@) {
            let k = choose|k: int|
                #![trigger occurs_at(v@, ".."@, k)]
                occurs_at(v@, ".."@, k) && (k == 0 || v@[k - 1] == '/') && (k + 2 == v@.len() || v@[k
                    + 2] == '/');
            assert(k < v@.len());
        }
    }
    false
}

pub open spec fn relative_path_check(root: Seq<char>, relative: Seq<char>, field: Seq<char>) -> Result<Seq<char>, Seq<char>> {
    if trim_ws(relative).len() == 0 {
        Err(field + " cannot be empty"@)
    } else if relative.len() > 0 && relative[0] == '/' {
        Err(field + " must stay relative to the workspace root; got `"@ + relative + "`"@)
    } else if has_parent_component(relative) {
        Err(field + " must stay inside the workspace root; got `"@ + relative + "`"@)
    } else {
        Ok(join_path(root, relative))
    }
}

pub open spec fn string_result_matches(r: Result<String, String>, s: Result<Seq<char>, Seq<char>>) -> bool {
    match r {
        Ok(x) => s is Ok && s->Ok_0 == x@,
        Err(e) => s is Err && s->Err_0 == e@,
    }
}

/// `relative` resolved under the workspace `root`; it must be non-blank,
/// relative, and must not climb out with `..`.
pub fn workspace_relative_path(root: &str, relative: &str, field_name: &str) -> (r: Result<String, String>)
    ensures
        string_result_matches(r, relative_path_check(root@, relative@, field_name@)),
{
    let trimmed = trim(relative);
    if trimmed.as_str().is_empty() {
        let mut e = copy_str(field_name);
        e.append(" cannot be empty");
        return Err(e);
    }
    let v = chars_of(relative);
    if v.len() > 0 && v[0] == '/' {
        let mut e = copy_str(field_name);
        e.append(" must stay relative to the workspace root; got `");
        e.append(relative);
        e.append("`");
        return Err(e);
    }
    if has_parent_component_exec(&v) {
        let mut e = copy_str(field_name);
        e.append(" must stay inside the workspace root; got `");
        e.append(relative);
        e.append("`");
        return Err(e);
    }
    Ok(path_join(root, relative))
}

pub open spec fn strip_leading_slashes(s: Seq<char>) -> Seq<char>
    decreases s.len(),
{
    if s.len() > 0 && s[0] == '/' {
        strip_leading_slashes(s.skip(1))
    } else {
        s
    }
}

/// `path` relative to `root`, with `\` turned into `/`.
pub open spec fn relative_to(root: Seq<char>, path: Seq<char>) -> Result<Seq<char>, Seq<char>> {
    let prefix = strip_trailing_slashes(root);
    if starts_with(path, prefix) && (prefix.len() == 0 || path.len() == prefix.len()
        || path[prefix.len() as int] == '/') {
        Ok(replace_char(strip_leading_slashes(path.skip(prefix.len() as int)), '\\', '/'))
    } else {
        Err("failed to compute relative path for `"@ + path + "` under `"@ + root + "`"@)
    }
}

pub fn relative_path_string(root: &str, path: &str) -> (r: Result<String, String>)
    ensures
        string_result_matches(r, relative_to(root@, path@)),
{
    let rv = chars_of(root);
    let pv = chars_of(path);
    let n = stripped_len(&rv, rv.len());
    assert(rv@.take(rv.len() as int) =~= rv@);
    let prefix = chars_range(&rv, 0, n);
    if starts_with_chars(&pv, &prefix) && (n == 0 || pv.len() == n || pv[n] == '/') {
        let mut i = n;
        assert(pv@.skip(n as int) =~= pv@.subrange(n as int, pv@.len() as int));
        while i < pv.len() && pv[i] == '/'
            invariant
                n <= i <= pv.len(),
                strip_leading_slashes(pv@.skip(n as int)) == strip_leading_slashes(pv@.skip(i as int)),
            decreases pv.len() - i,
        {
            assert(pv@.skip(i as int).skip(1) =~= pv@.skip(i + 1));
            i += 1;
        }
        let rest = chars_range(&pv, i, pv.len());
        assert(rest@ =~= pv@.skip(i as int));
        assert(strip_leading_slashes(rest@) == rest@);
        let s = string_from_chars(&rest);
        Ok(replace_char_str(s.as_str(), '\\', '/'))
    } else {
        let mut e = copy_str("failed to compute relative path for `");
        e.append(path);
        e.append("` under `");
        e.append(root);
        e.append("`");
        Err(e)
    }
}

/// Name of a registry index: its directory name, trimmed, when not blank;
/// otherwise `agam`.
pub open spec fn index_name_of(index_root: Seq<char>) -> Seq<char> {
    match file_name_of(index_root) {
        Some(n) => if trim_ws(n).len() > 0 {
            trim_ws(n)
        } else {
            "agam"@
        },
        None => "agam"@,
    }
}

pub fn inferred_registry_index_name(index_root: &str) -> (r: String)
    ensures
        r@ == index_name_of(index_root@),
{
    match file_name(index_root) {
        Some(n) => {
            let t = trim(n.as_str());
            if t.as_str().is_empty() {
                copy_str("agam")
            } else {
                t
            }
        },
        None => copy_str("agam"),
    }
}

/// A workspace kept warm by the daemon.
#[derive(Debug)]
pub struct DaemonWorkspaceTarget {
    pub root: String,
    pub project_name: String,
}

/// The daemon target for `root`: its project name is the directory name
/// when that is not blank, `agam-workspace` otherwise.
pub fn daemon_workspace_target_from_root(root: String) -> (r: DaemonWorkspaceTarget)
    ensures
        r.root == root,
        r.project_name@ == (match file_name_of(root@) {
            Some(n) => if trim_ws(n).len() > 0 {
                n
            } else {
                "agam-workspace"@
            },
            None => "agam-workspace"@,
        }),
{
    let project_name = match file_name(root.as_str()) {
        Some(n) => {
            let t = trim(n.as_str());
            if t.as_str().is_empty() {
                copy_str("agam-workspace")
            } else {
                n
            }
        },
        None => copy_str("agam-workspace"),
    };
    DaemonWorkspaceTarget { root, project_name }
}

} // verus!

verus! {

use crate::text::{split_on, split_chars, str_eq};

/// The non-empty parts of a path other than `.`, in order.
pub open spec fn kept_components(parts: Seq<Seq<char>>) -> Seq<Seq<char>>
    decreases parts.len(),
{
    if parts.len() == 0 {
        Seq::empty()
    } else {
        let prev = kept_components(parts.drop_last());
        let c = parts.last();
        if c.len() == 0 || c == "."@ {
            prev
        } else {
            prev.push(c)
        }
    }
}

/// What equality of paths compares (`Path::components`): whether the path
/// starts at the root, whether it starts with a `.` component, and its other
/// components, with repeated `/`, a trailing `/` and interior `.` parts
/// dropped.
pub open spec fn path_key(p: Seq<char>) -> (bool, bool, Seq<Seq<char>>) {
    let root = p.len() > 0 && p[0] == '/';
    let cur = !root && p.len() > 0 && p[0] == '.' && (p.len() == 1 || p[1] == '/');
    (root, cur, kept_components(split_on(p, '/')))
}

/// The components of `p` other than its root and leading `.`.
fn kept_components_exec(p: &str) -> (r: Vec<String>)
    ensures
        strings_view(r@) == kept_components(split_on(p@, '/')),
{
    let v = chars_of(p);
    let parts = split_chars(&v, '/');
    let ghost all = strings_view(parts@);
    let mut out: Vec<String> = Vec::new();
    let mut i: usize = 0;
    assert(all.take(0) =~= Seq::<Seq<char>>::empty());
    while i < parts.len()
        invariant
            i <= parts.len(),
            all == strings_view(parts@),
            all == split_on(p@, '/'),
            strings_view(out@) == kept_components(all.take(i as int)),
        decreases parts.len() - i,
    {
        assert(all.take(i + 1).drop_last() =~= all.take(i as int));
        assert(all.take(i + 1).last() == parts@[i as int]@);
        let part = parts[i].as_str();
        if !(part.is_empty() || str_eq(part, ".")) {
            let ghost before = strings_view(out@);
            out.push(copy_str(part));
            assert(strings_view(out@) =~= before.push(part@));
        }
        i += 1;
    }
    assert(all.take(parts.len() as int) =~= all);
    out
}

/// Whether `a` and `b` name the same path, as `Path`'s equality has it.
pub fn same_path(a: &str, b: &str) -> (r: bool)
    ensures
        r == (path_key(a@) == path_key(b@)),
{
    let va = chars_of(a);
    let vb = chars_of(b);
    let root_a = va.len() > 0 && va[0] == '/';
    let root_b = vb.len() > 0 && vb[0] == '/';
    let cur_a = !root_a && va.len() > 0 && va[0] == '.' && (va.len() == 1 || va[1] == '/');
    let cur_b = !root_b && vb.len() > 0 && vb[0] == '.' && (vb.len() == 1 || vb[1] == '/');
    if root_a != root_b || cur_a != cur_b {
        return false;
    }
    let ka = kept_components_exec(a);
    let kb = kept_components_exec(b);
    let ghost sa = strings_view(ka@);
    let ghost sb = strings_view(kb@);
    if ka.len() != kb.len() {
        assert(sa.len() != sb.len());
        return false;
    }
    let mut i: usize = 0;
    while i < ka.len()
        invariant
            i <= ka.len(),
            ka.len() == kb.len(),
            sa == strings_view(ka@),
            sb == strings_view(kb@),
            sa == path_key(a@).2,
            sb == path_key(b@).2,
            forall|k: int| 0 <= k < i ==> sa[k] == sb[k],
        decreases ka.len() - i,
    {
        assert(sa[i as int] == ka@[i as int]@ && sb[i as int] == kb@[i as int]@);
        if !str_eq(ka[i].as_str(), kb[i].as_str()) {
            assert(sa[i as int] != sb[i as int]);
            return false;
        }
        i += 1;
    }
    assert(sa =~= sb);
    true
}

} // verus!
