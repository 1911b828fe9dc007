//! Call-cache selection: which functions the scalar call-result cache
//! serves, from source annotations and the command line.

use vstd::prelude::*;
use crate::strset::{strictly_sorted, StrSet};
use crate::text::{copy_str, join_strings, join_sep, strings_view};

verus! {

/// The call-cache choices made by a source file, possibly widened by the
/// command line.
#[derive(Debug)]
pub struct CallCacheSelection {
    pub disable_all: bool,
    pub enable_all: bool,
    pub optimize_all: bool,
    pub include_functions: StrSet,
    pub optimize_functions: StrSet,
    pub exclude_functions: StrSet,
}

impl Default for CallCacheSelection {
    fn default() -> (r: Self)
        ensures
            r.wf(),
            !r.disable_all,
            !r.enable_all,
            !r.optimize_all,
            r.include_functions.view().len() == 0,
            r.optimize_functions.view().len() == 0,
            r.exclude_functions.view().len() == 0,
    {
        CallCacheSelection {
            disable_all: false,
            enable_all: false,
            optimize_all: false,
            include_functions: StrSet::new(),
            optimize_functions: StrSet::new(),
            exclude_functions: StrSet::new(),
        }
    }
}

impl CallCacheSelection {
    pub open spec fn wf(&self) -> bool {
        &&& self.include_functions.wf()
        &&& self.optimize_functions.wf()
        &&& self.exclude_functions.wf()
    }

    /// The automatic service is on unless it was disabled (or re-enabled).
    pub open spec fn spec_resolved_enable_all(&self) -> bool {
        self.enable_all || !self.disable_all
    }

    /// Whether `function`'s calls are cached.
    pub open spec fn spec_caches(&self, function: Seq<char>) -> bool {
        !self.exclude_functions.view().contains(function) && (self.spec_resolved_enable_all()
            || self.optimize_all || self.include_functions.view().contains(function)
            || self.optimize_functions.view().contains(function))
    }

    /// Whether the call cache serves anything at all.
    pub fn is_enabled(&self) -> (r: bool)
        ensures
            r == (self.spec_resolved_enable_all() || self.optimize_all
                || self.include_functions.view().len() > 0
                || self.optimize_functions.view().len() > 0),
    {
        self.resolved_enable_all() || self.optimize_all || !self.include_functions.is_empty()
            || !self.optimize_functions.is_empty()
    }

    pub fn resolved_enable_all(&self) -> (r: bool)
        ensures
            r == self.spec_resolved_enable_all(),
    {
        self.enable_all || !self.disable_all
    }

    /// A copy of the selection.
    pub fn copy(&self) -> (r: CallCacheSelection)
        requires
            self.wf(),
        ensures
            r.wf(),
            r.disable_all == self.disable_all,
            r.enable_all == self.enable_all,
            r.optimize_all == self.optimize_all,
            r.include_functions.view() == self.include_functions.view(),
            r.optimize_functions.view() == self.optimize_functions.view(),
            r.exclude_functions.view() == self.exclude_functions.view(),
    {
        CallCacheSelection {
            disable_all: self.disable_all,
            enable_all: self.enable_all,
            optimize_all: self.optimize_all,
            include_functions: self.include_functions.copy(),
            optimize_functions: self.optimize_functions.copy(),
            exclude_functions: self.exclude_functions.copy(),
        }
    }

    /// The selection with the command-line `--call-cache` flag applied: when
    /// given, the automatic service is enabled over any source opt-out.
    pub fn merge_cli(&self, cli_enabled: bool) -> (r: CallCacheSelection)
        requires
            self.wf(),
        ensures
            r.wf(),
            r.disable_all == (self.disable_all && !cli_enabled),
            r.enable_all == (self.enable_all || cli_enabled),
            r.optimize_all == self.optimize_all,
            r.include_functions.view() == self.include_functions.view(),
            r.optimize_functions.view() == self.optimize_functions.view(),
            r.exclude_functions.view() == self.exclude_functions.view(),
    {
        let mut merged = self.copy();
        if cli_enabled {
            merged.disable_all = false;
            merged.enable_all = true;
        }
        merged
    }

    /// Functions explicitly selected (included or optimized), in order.
    pub fn included_functions(&self) -> (r: Vec<String>)
        requires
            self.wf(),
        ensures
            strictly_sorted(strings_view(r@)),
            strings_view(r@).to_set() == self.include_functions.view().to_set()
                + self.optimize_functions.view().to_set(),
    {
        let mut all = self.include_functions.copy();
        let extra = self.optimize_functions.to_vec();
        let mut i: usize = 0;
        while i < extra.len()
            invariant
                all.wf(),
                i <= extra@.len(),
                strings_view(extra@) == self.optimize_functions.view(),
                all.view().to_set() == self.include_functions.view().to_set() + strings_view(
                    extra@,
                ).take(i as int).to_set(),
            decreases extra@.len() - i,
        {
            let item = extra[i].clone();
            let ghost before = all.view().to_set();
            all.insert(item);
            assert(strings_view(extra@).take(i + 1).to_set() =~= strings_view(extra@).take(
                i as int,
            ).to_set().insert(extra@[i as int]@)) by {
                assert(strings_view(extra@).take(i + 1) =~= strings_view(extra@).take(i as int).push(
                    extra@[i as int]@,
                ));
                strings_view(extra@).take(i as int).lemma_push_to_set_commute(extra@[i as int]@);
            }
            assert(all.view().to_set() =~= self.include_functions.view().to_set() + strings_view(
                extra@,
            ).take(i + 1).to_set());
            i += 1;
        }
        assert(strings_view(extra@).take(extra@.len() as int) =~= strings_view(extra@));
        let r = all.to_vec();
        proof {
            all_sorted(&all);
        }
        r
    }

    /// Functions excluded from the cache, in order.
    pub fn excluded_functions(&self) -> (r: Vec<String>)
        ensures
            strings_view(r@) == self.exclude_functions.view(),
    {
        self.exclude_functions.to_vec()
    }

    /// Functions selected for optimize mode, in order.
    pub fn optimized_functions(&self) -> (r: Vec<String>)
        ensures
            strings_view(r@) == self.optimize_functions.view(),
    {
        self.optimize_functions.to_vec()
    }

    /// Whether calls of `function` are cached: never when excluded,
    /// otherwise when the automatic service, optimize-all, or an explicit
    /// selection covers it.
    pub fn caches_function(&self, function: &str) -> (r: bool)
        ensures
            r == self.spec_caches(function@),
    {
        if self.exclude_functions.contains(function) {
            return false;
        }
        self.resolved_enable_all() || self.optimize_all || self.include_functions.contains(function)
            || self.optimize_functions.contains(function)
    }
}

/// Which functions the call cache serves: an excluded function never; any
/// other function that is included or selected for optimization always,
/// whatever the global switches say; and any other function at all when
/// caching is on for every function (enabled, or not disabled) or
/// optimization is on for every function. Nothing else is cached.
pub proof fn lemma_caches_function(sel: CallCacheSelection, function: Seq<char>)
    ensures
        sel.exclude_functions.view().contains(function) ==> !sel.spec_caches(function),
        !sel.exclude_functions.view().contains(function) && sel.include_functions.view().contains(
            function,
        ) ==> sel.spec_caches(function),
        !sel.exclude_functions.view().contains(function)
            && sel.optimize_functions.view().contains(function) ==> sel.spec_caches(function),
        !sel.exclude_functions.view().contains(function) && (sel.enable_all || !sel.disable_all
            || sel.optimize_all) ==> sel.spec_caches(function),
        sel.spec_caches(function) ==> !sel.exclude_functions.view().contains(function) && (
        sel.enable_all || !sel.disable_all || sel.optimize_all
            || sel.include_functions.view().contains(function)
            || sel.optimize_functions.view().contains(function)),
{
}

proof fn all_sorted(s: &StrSet)
    requires
        s.wf(),
    ensures
        strictly_sorted(s.view()),
{
    crate::strset::lemma_wf_sorted(s);
}

/// Excluding a function wins over every way of selecting it, and with the
/// command-line flag every function not excluded is cached.
pub proof fn lemma_exclusion_wins(sel: CallCacheSelection, function: Seq<char>)
    ensures
        sel.exclude_functions.view().contains(function) ==> !sel.spec_caches(function),
        sel.enable_all && !sel.exclude_functions.view().contains(function) ==> sel.spec_caches(
            function,
        ),
{
}

} // verus!

verus! {

pub open spec fn bool_text(b: bool) -> Seq<char> {
    if b {
        "true"@
    } else {
        "false"@
    }
}

fn push_bool(out: &mut String, b: bool)
    ensures
        final(out)@ == old(out)@ + bool_text(b),
{
    if b {
        out.append("true");
    } else {
        out.append("false");
    }
}

/// Stable text identifying a call-cache selection (part of build cache keys).
pub open spec fn call_cache_signature_text(c: CallCacheSelection) -> Seq<char> {
    "strategy=auto-v1;disable_all="@ + bool_text(c.disable_all) + ";enable_all="@ + bool_text(
        c.enable_all,
    ) + ";optimize_all="@ + bool_text(c.optimize_all) + ";include="@ + join_sep(
        c.include_functions.view(),
        ","@,
    ) + ";optimize="@ + join_sep(c.optimize_functions.view(), ","@) + ";exclude="@ + join_sep(
        c.exclude_functions.view(),
        ","@,
    )
}

pub fn call_cache_signature(call_cache: &CallCacheSelection) -> (r: String)
    ensures
        r@ == call_cache_signature_text(*call_cache),
{
    let mut out = copy_str("strategy=auto-v1;disable_all=");
    push_bool(&mut out, call_cache.disable_all);
    out.append(";enable_all=");
    push_bool(&mut out, call_cache.enable_all);
    out.append(";optimize_all=");
    push_bool(&mut out, call_cache.optimize_all);
    out.append(";include=");
    let included = join_strings(&call_cache.include_functions.to_vec(), ",");
    out.append(included.as_str());
    out.append(";optimize=");
    let optimize = join_strings(&call_cache.optimize_functions.to_vec(), ",");
    out.append(optimize.as_str());
    out.append(";exclude=");
    let exclude = join_strings(&call_cache.exclude_functions.to_vec(), ",");
    out.append(exclude.as_str());
    assert(out@ =~= call_cache_signature_text(*call_cache));
    out
}

} // verus!

verus! {

use crate::driver::backend::{Backend, LlvmTargetConfig, LlvmToolchain};
use crate::text::{opt_string_view, replace_char, replace_char_str};
use crate::span::Span;

/// Version tag of the build-cache key format.
pub open spec fn build_cache_version() -> Seq<char> {
    "compiler-build-v2"@
}

pub open spec fn toolchain_text(t: Option<LlvmToolchain>) -> Seq<char> {
    match t {
        Some(LlvmToolchain::Native) => "native"@,
        Some(LlvmToolchain::Wsl) => "wsl"@,
        None => "missing"@,
    }
}

pub open spec fn path_or(p: Option<Seq<char>>, default: Seq<char>) -> Seq<char> {
    match p {
        Some(x) => replace_char(x, ';', '_'),
        None => default,
    }
}

/// Stable text identifying what a build depends on besides its source: the
/// cache format, the call-cache selection, and for LLVM the toolchain, clang
/// and target (`;` in paths becomes `_`).
pub open spec fn feature_signature_text(
    backend: Backend,
    call_cache: CallCacheSelection,
    allow_wsl_llvm: bool,
    toolchain: Option<LlvmToolchain>,
    clang: Seq<char>,
    config: LlvmTargetConfig,
) -> Seq<char> {
    let base = "build_cache="@ + build_cache_version() + ";"@ + call_cache_signature_text(call_cache);
    if backend == Backend::Llvm {
        base + ";llvm_toolchain="@ + toolchain_text(toolchain) + ";llvm_wsl_allowed="@ + bool_text(
            allow_wsl_llvm,
        ) + ";llvm_clang="@ + replace_char(clang, ';', '_') + ";llvm_target="@ + (match config.target_triple {
            Some(t) => t@,
            None => "host"@,
        }) + ";llvm_sysroot="@ + path_or(opt_string_view(config.sysroot), "none"@) + ";llvm_sdkroot="@
            + path_or(opt_string_view(config.sdk_root), "none"@)
    } else {
        base
    }
}

fn push_path_or(out: &mut String, p: &Option<String>, default: &str)
    ensures
        final(out)@ == old(out)@ + path_or(opt_string_view(*p), default@),
{
    match p {
        Some(x) => {
            let r = replace_char_str(x.as_str(), ';', '_');
            out.append(r.as_str());
        },
        None => out.append(default),
    }
}

/// The build-cache signature; `toolchain` and `clang` are the LLVM toolchain
/// found (through WSL only when `allow_wsl_llvm`) and the clang command.
pub fn build_feature_signature(
    backend: Backend,
    call_cache: &CallCacheSelection,
    allow_wsl_llvm: bool,
    toolchain: Option<LlvmToolchain>,
    clang: &str,
    target_config: &LlvmTargetConfig,
) -> (r: String)
    ensures
        r@ == feature_signature_text(
            backend,
            *call_cache,
            allow_wsl_llvm,
            toolchain,
            clang@,
            *target_config,
        ),
{
    let mut signature = copy_str("build_cache=");
    signature.append("compiler-build-v2");
    signature.append(";");
    let cc = call_cache_signature(call_cache);
    signature.append(cc.as_str());
    let ghost base = signature@;
    assert(base =~= "build_cache="@ + build_cache_version() + ";"@ + call_cache_signature_text(*call_cache));
    if backend == Backend::Llvm {
        signature.append(";llvm_toolchain=");
        match toolchain {
            Some(LlvmToolchain::Native) => signature.append("native"),
            Some(LlvmToolchain::Wsl) => signature.append("wsl"),
            None => signature.append("missing"),
        }
        assert(signature@ =~= base + ";llvm_toolchain="@ + toolchain_text(toolchain));
        let ghost s1 = signature@;
        signature.append(";llvm_wsl_allowed=");
        push_bool(&mut signature, allow_wsl_llvm);
        signature.append(";llvm_clang=");
        let c = replace_char_str(clang, ';', '_');
        signature.append(c.as_str());
        signature.append(";llvm_target=");
        let ghost s2 = signature@;
        assert(s2 =~= s1 + ";llvm_wsl_allowed="@ + bool_text(allow_wsl_llvm) + ";llvm_clang="@
            + replace_char(clang@, ';', '_') + ";llvm_target="@);
        match &target_config.target_triple {
            Some(t) => signature.append(t.as_str()),
            None => signature.append("host"),
        }
        let ghost s3 = signature@;
        signature.append(";llvm_sysroot=");
        push_path_or(&mut signature, &target_config.sysroot, "none");
        signature.append(";llvm_sdkroot=");
        push_path_or(&mut signature, &target_config.sdk_root, "none");
        assert(signature@ =~= s3 + ";llvm_sysroot="@ + path_or(opt_string_view(target_config.sysroot), "none"@)
            + ";llvm_sdkroot="@ + path_or(opt_string_view(target_config.sdk_root), "none"@));
    }
    assert(signature@ =~= feature_signature_text(
        backend,
        *call_cache,
        allow_wsl_llvm,
        toolchain,
        clang@,
        *target_config,
    ));
    signature
}

/// Feature switches given on the command line.
#[derive(Clone, Copy, Debug, Default)]
pub struct FeatureFlags {
    pub call_cache: bool,
}

/// An experimental feature that sources can opt into.
#[derive(Clone, Copy, Debug, PartialEq, Eq, Structural)]
pub enum ExperimentalFeature {
    CallCacheOptimize,
}

/// Diagnostic texts of an experimental feature.
#[derive(Clone, Copy, Debug)]
pub struct ExperimentalFeatureSpec {
    pub code: &'static str,
    pub annotation: &'static str,
    pub warning: &'static str,
    pub help: &'static str,
}

impl ExperimentalFeature {
    pub fn spec(self) -> (r: ExperimentalFeatureSpec)
        ensures
            r.code@ == "W2001"@,
            r.annotation@ == "@experimental.call_cache.optimize"@,
            r.warning@ == "call-cache optimize mode is experimental"@,
            r.help@
                == "keep this opt-in local to hot paths; admission and eviction heuristics may change"@,
    {
        match self {
            ExperimentalFeature::CallCacheOptimize => ExperimentalFeatureSpec {
                code: "W2001",
                annotation: "@experimental.call_cache.optimize",
                warning: "call-cache optimize mode is experimental",
                help: "keep this opt-in local to hot paths; admission and eviction heuristics may change",
            },
        }
    }
}

/// Where a source file enables an experimental feature.
#[derive(Clone, Copy, Debug, PartialEq, Eq, Structural)]
pub struct ExperimentalFeatureUsage {
    pub feature: ExperimentalFeature,
    pub span: Span,
}

/// Feature choices made by a source file.
#[derive(Debug)]
pub struct SourceFeatureFlags {
    pub call_cache: CallCacheSelection,
    pub experimental_usages: Vec<ExperimentalFeatureUsage>,
}

/// The selection in force: the source's, widened by `--call-cache`.
pub fn effective_call_cache_selection(cli: FeatureFlags, source: &SourceFeatureFlags) -> (r:
    CallCacheSelection)
    requires
        source.call_cache.wf(),
    ensures
        r.wf(),
        r.disable_all == (source.call_cache.disable_all && !cli.call_cache),
        r.enable_all == (source.call_cache.enable_all || cli.call_cache),
        r.optimize_all == source.call_cache.optimize_all,
        r.include_functions.view() == source.call_cache.include_functions.view(),
        r.optimize_functions.view() == source.call_cache.optimize_functions.view(),
        r.exclude_functions.view() == source.call_cache.exclude_functions.view(),
{
    source.call_cache.merge_cli(cli.call_cache)
}

/// Source features carrying only a call-cache selection.
pub fn source_features_from_call_cache(call_cache: CallCacheSelection) -> (r: SourceFeatureFlags)
    ensures
        r.call_cache == call_cache,
        r.experimental_usages@.len() == 0,
{
    SourceFeatureFlags { call_cache, experimental_usages: Vec::new() }
}

} // verus!

verus! {

use crate::diagnostic::{Diagnostic, DiagnosticLevel, Label};
use crate::report::{DiagnosticEmitter, render_text, label_shown, labels_drawable};

/// The usages in order, each kept only at its first occurrence.
pub open spec fn first_occurrences(us: Seq<ExperimentalFeatureUsage>) -> Seq<ExperimentalFeatureUsage>
    decreases us.len(),
{
    if us.len() == 0 {
        seq![]
    } else if us.drop_last().contains(us.last()) {
        first_occurrences(us.drop_last())
    } else {
        first_occurrences(us.drop_last()).push(us.last())
    }
}

/// `d` is the warning reported for the experimental-feature usage `u`.
pub open spec fn is_feature_warning(d: Diagnostic, u: ExperimentalFeatureUsage) -> bool {
    &&& d.level == DiagnosticLevel::Warning
    &&& d.code is Some && d.code->0@ == "W2001"@
    &&& d.message@ == "call-cache optimize mode is experimental"@
    &&& d.labels@.len() == 1
    &&& d.labels@[0].span == u.span
    &&& d.labels@[0].is_primary
    &&& d.labels@[0].message@ == "`"@ + "@experimental.call_cache.optimize"@ + "` is enabled here"@
    &&& d.help is Some
    &&& d.help->0@ == "keep this opt-in local to hot paths; admission and eviction heuristics may change"@
    &&& d.note is None
}

pub open spec fn rendered_all(sources: Map<u32, crate::span::SourceFile>, ds: Seq<Diagnostic>) -> Seq<char>
    decreases ds.len(),
{
    if ds.len() == 0 {
        seq![]
    } else {
        rendered_all(sources, ds.drop_last()) + render_text(sources, ds.last())
    }
}

proof fn lemma_first_occurrences_len(us: Seq<ExperimentalFeatureUsage>)
    ensures
        first_occurrences(us).len() <= us.len(),
    decreases us.len(),
{
    if us.len() > 0 {
        lemma_first_occurrences_len(us.drop_last());
    }
}

/// Report one warning per distinct experimental-feature usage (feature and
/// span), in order of first occurrence; returns the rendered warnings.
pub fn emit_experimental_feature_warnings(
    emitter: &mut DiagnosticEmitter,
    usages: &Vec<ExperimentalFeatureUsage>,
) -> (r: String)
    requires
        old(emitter).wf(),
        old(emitter).emitted().len() + usages@.len() < usize::MAX,
        forall|i: int| 0 <= i < usages@.len() ==> (#[trigger] usages@[i]).span.wf(),
    ensures
        final(emitter).wf(),
        final(emitter).source_map() == old(emitter).source_map(),
        final(emitter).emitted().len() == old(emitter).emitted().len() + first_occurrences(
            usages@,
        ).len(),
        final(emitter).emitted().take(old(emitter).emitted().len() as int) == old(emitter).emitted(),
        forall|k: int|
            0 <= k < first_occurrences(usages@).len() ==> is_feature_warning(
                #[trigger] final(emitter).emitted()[old(emitter).emitted().len() + k],
                first_occurrences(usages@)[k],
            ),
        r@ == rendered_all(
            old(emitter).source_map(),
            final(emitter).emitted().skip(old(emitter).emitted().len() as int),
        ),
{
    let ghost start = emitter.emitted();
    let ghost sources = emitter.source_map();
    let mut out = String::new();
    let mut emitted: Vec<ExperimentalFeatureUsage> = Vec::new();
    let mut i: usize = 0;
    assert(usages@.take(0) =~= Seq::<ExperimentalFeatureUsage>::empty());
    assert(emitter.emitted().skip(start.len() as int) =~= Seq::<Diagnostic>::empty());
    assert(emitter.emitted().take(start.len() as int) =~= start);
    while i < usages.len()
        invariant
            i <= usages@.len(),
            emitter.wf(),
            emitter.source_map() == sources,
            start.len() + usages@.len() < usize::MAX,
            forall|j: int| 0 <= j < usages@.len() ==> (#[trigger] usages@[j]).span.wf(),
            emitted@ == first_occurrences(usages@.take(i as int)),
            emitter.emitted().len() == start.len() + emitted@.len(),
            emitter.emitted().take(start.len() as int) == start,
            forall|k: int|
                0 <= k < emitted@.len() ==> is_feature_warning(
                    #[trigger] emitter.emitted()[start.len() + k],
                    emitted@[k],
                ),
            out@ == rendered_all(sources, emitter.emitted().skip(start.len() as int)),
        decreases usages@.len() - i,
    {
        let usage = usages[i];
        let ghost prefix = usages@.take(i + 1);
        assert(prefix.drop_last() =~= usages@.take(i as int));
        assert(prefix.last() == usage);
        proof {
            lemma_first_occurrences_len(usages@.take(i as int));
        }
        // Has this (feature, span) pair been reported already?
        let mut seen = false;
        let mut j: usize = 0;
        while j < emitted.len()
            invariant
                j <= emitted@.len(),
                seen == emitted@.take(j as int).contains(usage),
            decreases emitted@.len() - j,
        {
            proof {
                assert(emitted@.take(j + 1) =~= emitted@.take(j as int).push(emitted@[j as int]));
                lemma_push_contains(emitted@.take(j as int), emitted@[j as int], usage);
            }
            if emitted[j] == usage {
                seen = true;
            }
            j += 1;
        }
        assert(emitted@.take(emitted@.len() as int) =~= emitted@);
        proof {
            lemma_first_occurrences_members(usages@.take(i as int), usage);
        }
        if !seen {
            let spec = usage.feature.spec();
            let mut message = copy_str("`");
            message.append(spec.annotation);
            message.append("` is enabled here");
            let diag = Diagnostic::warning(spec.code, spec.warning).with_label(
                Label::primary(usage.span, message.as_str()),
            ).with_help(spec.help);
            assert(diag.labels@ =~= seq![diag.labels@[0]]);
            assert(labels_drawable(sources, diag));
            let ghost before = emitter.emitted();
            let text = emitter.emit(diag);
            out.append(text.as_str());
            emitted.push(usage);
            assert(emitter.emitted().skip(start.len() as int).drop_last() =~= before.skip(
                start.len() as int,
            ));
            assert(emitter.emitted().take(start.len() as int) =~= before.take(start.len() as int));
        }
        i += 1;
    }
    assert(usages@.take(usages@.len() as int) =~= usages@);
    out
}

proof fn lemma_push_contains<T>(s: Seq<T>, x: T, u: T)
    ensures
        s.push(x).contains(u) == (s.contains(u) || x == u),
{
    if s.push(x).contains(u) {
        let k = choose|k: int| 0 <= k < s.len() + 1 && s.push(x)[k] == u;
        if k < s.len() {
            assert(s[k] == u);
        }
    }
    if s.contains(u) {
        let k = choose|k: int| 0 <= k < s.len() && s[k] == u;
        assert(s.push(x)[k] == u);
    }
    if x == u {
        assert(s.push(x)[s.len() as int] == u);
    }
}

proof fn lemma_first_occurrences_members(us: Seq<ExperimentalFeatureUsage>, u: ExperimentalFeatureUsage)
    ensures
        first_occurrences(us).contains(u) == us.contains(u),
    decreases us.len(),
{
    if us.len() > 0 {
        let d = us.drop_last();
        let x = us.last();
        lemma_first_occurrences_members(d, u);
        assert(us =~= d.push(x));
        lemma_push_contains(d, x, u);
        if !d.contains(x) {
            lemma_push_contains(first_occurrences(d), x, u);
        }
    } else {
        assert(first_occurrences(us) =~= us);
    }
}

} // verus!
