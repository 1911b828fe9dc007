//! Feature annotations in Agam sources: the `@a.b.c` annotations at the top
//! of a module, read from its tokens, and those on functions, which select
//! functions for the call cache.

use vstd::prelude::*;
use crate::driver::call_cache::{
    CallCacheSelection, ExperimentalFeature, ExperimentalFeatureUsage, SourceFeatureFlags,
};
use crate::span::{SourceId, Span};
use crate::strset::StrSet;
use crate::text::{copy_str, join_sep, join_strings, str_eq, strings_view};

verus! {

/// What a token is, as far as annotations are concerned.
#[derive(Clone, Copy, Debug, PartialEq, Eq, Structural)]
pub enum TokenKind {
    At,
    Identifier,
    Dot,
    Newline,
    LineComment,
    BlockComment,
    DocComment,
    Other,
}

/// A token of a source file: its kind, its text and where it stands.
#[derive(Clone, Debug)]
pub struct SourceToken {
    pub kind: TokenKind,
    pub lexeme: String,
    pub span: Span,
}

/// A module annotation read from tokens: its dotted name, the span from `@`
/// to the end of its last identifier, and the index of the token after it.
#[derive(Clone, Debug)]
pub struct ParsedAnnotationName {
    pub name: String,
    pub span: Span,
    pub next_index: usize,
}

pub open spec fn is_trivia(kind: TokenKind) -> bool {
    kind == TokenKind::Newline || kind == TokenKind::LineComment || kind == TokenKind::BlockComment
        || kind == TokenKind::DocComment
}

/// The first index at or after `index` whose token is no newline or comment
/// (the end of `tokens` when there is none).
pub open spec fn trivia_end(tokens: Seq<SourceToken>, index: int) -> int
    decreases tokens.len() - index,
{
    if 0 <= index < tokens.len() && is_trivia(tokens[index].kind) {
        trivia_end(tokens, index + 1)
    } else {
        index
    }
}

pub proof fn lemma_trivia_end(tokens: Seq<SourceToken>, index: int)
    ensures
        trivia_end(tokens, index) >= index,
        index <= tokens.len() ==> trivia_end(tokens, index) <= tokens.len(),
    decreases tokens.len() - index,
{
    if 0 <= index < tokens.len() && is_trivia(tokens[index].kind) {
        lemma_trivia_end(tokens, index + 1);
    }
}

/// Skips newlines and comments from `index` on.
pub fn skip_trivia_tokens(tokens: &Vec<SourceToken>, index: usize) -> (r: usize)
    ensures
        r as int == trivia_end(tokens@, index as int),
{
    let mut i = index;
    while i < tokens.len()
        && (tokens[i].kind == TokenKind::Newline || tokens[i].kind == TokenKind::LineComment
            || tokens[i].kind == TokenKind::BlockComment || tokens[i].kind == TokenKind::DocComment)
        invariant
            index <= i,
            trivia_end(tokens@, index as int) == trivia_end(tokens@, i as int),
        decreases tokens.len() - i,
    {
        i += 1;
    }
    i
}

/// The identifiers of a dotted name starting at `index`, the index after it
/// and the end of its last identifier; `None` unless every part is an
/// identifier.
pub open spec fn dotted_name(tokens: Seq<SourceToken>, index: int) -> Option<(Seq<Seq<char>>, int, u32)>
    decreases tokens.len() - index,
{
    if !(0 <= index < tokens.len()) || tokens[index].kind != TokenKind::Identifier {
        None
    } else if index + 1 < tokens.len() && tokens[index + 1].kind == TokenKind::Dot {
        match dotted_name(tokens, index + 2) {
            Some((rest, next, end)) => Some((seq![tokens[index].lexeme@] + rest, next, end)),
            None => None,
        }
    } else {
        Some((seq![tokens[index].lexeme@], index + 1, tokens[index].span.end))
    }
}

pub proof fn lemma_dotted_name(tokens: Seq<SourceToken>, index: int)
    ensures
        dotted_name(tokens, index) matches Some((parts, next, end)) ==> index < next <= tokens.len()
            && parts.len() >= 1,
    decreases tokens.len() - index,
{
    if 0 <= index < tokens.len() && tokens[index].kind == TokenKind::Identifier && index + 1
        < tokens.len() && tokens[index + 1].kind == TokenKind::Dot {
        lemma_dotted_name(tokens, index + 2);
    }
}

/// The annotation starting at `start`: an `@` followed by a dotted name.
pub open spec fn annotation_at(tokens: Seq<SourceToken>, start: int) -> Option<(Seq<char>, Span, int)> {
    if !(0 <= start < tokens.len()) || tokens[start].kind != TokenKind::At {
        None
    } else {
        match dotted_name(tokens, start + 1) {
            Some((parts, next, end)) => Some(
                (
                    join_sep(parts, "."@),
                    Span { source_id: tokens[start].span.source_id, start: tokens[start].span.start, end },
                    next,
                ),
            ),
            None => None,
        }
    }
}

/// Reads the annotation name that starts at `start`, if one does.
pub fn parse_annotation_name(tokens: &Vec<SourceToken>, start: usize) -> (r: Option<ParsedAnnotationName>)
    ensures
        match annotation_at(tokens@, start as int) {
            Some((name, span, next)) => r is Some && r->0.name@ == name && r->0.span == span
                && r->0.next_index as int == next,
            None => r is None,
        },
{
    if start >= tokens.len() || tokens[start].kind != TokenKind::At {
        return None;
    }
    let mut index = start + 1;
    let mut parts: Vec<String> = Vec::new();
    let start_span = tokens[start].span.start;
    let source_id = tokens[start].span.source_id;
    loop
        invariant
            start < index,
            start < tokens@.len(),
            tokens@[start as int].kind == TokenKind::At,
            start_span == tokens@[start as int].span.start,
            source_id == tokens@[start as int].span.source_id,
            match dotted_name(tokens@, start + 1) {
                Some((all, next, end)) => match dotted_name(tokens@, index as int) {
                    Some((rest, n2, e2)) => all == strings_view(parts@) + rest && next == n2
                        && end == e2,
                    None => false,
                },
                None => dotted_name(tokens@, index as int) is None,
            },
        decreases tokens.len() - index,
    {
        if index >= tokens.len() || tokens[index].kind != TokenKind::Identifier {
            return None;
        }
        let ghost before = strings_view(parts@);
        parts.push(copy_str(tokens[index].lexeme.as_str()));
        let end_span = tokens[index].span.end;
        if index + 1 < tokens.len() && tokens[index + 1].kind == TokenKind::Dot {
            assert(strings_view(parts@) =~= before.push(tokens@[index as int].lexeme@));
            proof {
                match dotted_name(tokens@, index + 2) {
                    Some((rest, n, e)) => {
                        assert(before + (seq![tokens@[index as int].lexeme@] + rest)
                            =~= before.push(tokens@[index as int].lexeme@) + rest);
                    },
                    None => {},
                }
            }
            index = index + 2;
        } else {
            let ghost all = strings_view(parts@);
            assert(all =~= before + seq![tokens@[index as int].lexeme@]);
            let name = join_strings(&parts, ".");
            return Some(
                ParsedAnnotationName {
                    name,
                    span: Span { source_id, start: start_span, end: end_span },
                    next_index: index + 1,
                },
            );
        }
    }
}

} // verus!

verus! {

/// What a module annotation does to the module's call-cache switches
/// `(disable_all, enable_all, optimize_all)`.
pub open spec fn module_annotation_effect(flags: (bool, bool, bool), name: Seq<char>) -> (bool, bool, bool) {
    if name == "experimental.call_cache"@ || name == "lang.feat.call_cache"@ {
        (false, true, flags.2)
    } else if name == "experimental.no_call_cache"@ || name == "lang.feat.no_call_cache"@ {
        (true, false, false)
    } else if name == "experimental.call_cache.optimize"@ {
        (false, true, true)
    } else if name == "experimental.no_call_cache.optimize"@ {
        (flags.0, flags.1, false)
    } else {
        flags
    }
}

/// The switches and experimental usages after the leading annotations from
/// `index` on (separated by newlines and comments) have been read.
pub open spec fn module_scan(
    tokens: Seq<SourceToken>,
    index: int,
    flags: (bool, bool, bool),
    usages: Seq<ExperimentalFeatureUsage>,
) -> ((bool, bool, bool), Seq<ExperimentalFeatureUsage>)
    decreases tokens.len() - index,
{
    if !(0 <= index < tokens.len()) {
        (flags, usages)
    } else {
        match annotation_at(tokens, index) {
            None => (flags, usages),
            Some((name, span, next)) => {
                proof {
                    lemma_dotted_name(tokens, index + 1);
                    lemma_trivia_end(tokens, next);
                }
                module_scan(
                    tokens,
                    trivia_end(tokens, next),
                    module_annotation_effect(flags, name),
                    if name == "experimental.call_cache.optimize"@ {
                        usages.push(
                            ExperimentalFeatureUsage { feature: ExperimentalFeature::CallCacheOptimize, span },
                        )
                    } else {
                        usages
                    },
                )
            },
        }
    }
}

/// The feature choices a module makes in the annotations that open it:
/// `@experimental.call_cache` (or `@lang.feat.call_cache`) enables the call
/// cache for the module, `@experimental.no_call_cache` (or
/// `@lang.feat.no_call_cache`) disables it, `@experimental.call_cache.optimize`
/// enables its optimize mode (an experimental feature, whose use is
/// recorded), and `@experimental.no_call_cache.optimize` turns that mode off.
pub fn source_feature_flags_from_tokens(tokens: &Vec<SourceToken>) -> (r: SourceFeatureFlags)
    ensures
        r.call_cache.wf(),
        r.call_cache.include_functions.view().len() == 0,
        r.call_cache.optimize_functions.view().len() == 0,
        r.call_cache.exclude_functions.view().len() == 0,
        ({
            let (flags, usages) = module_scan(
                tokens@,
                trivia_end(tokens@, 0),
                (false, false, false),
                Seq::empty(),
            );
            &&& r.call_cache.disable_all == flags.0
            &&& r.call_cache.enable_all == flags.1
            &&& r.call_cache.optimize_all == flags.2
            &&& r.experimental_usages@ == usages
        }),
{
    let mut features = SourceFeatureFlags {
        call_cache: CallCacheSelection::default(),
        experimental_usages: Vec::new(),
    };
    let mut index = skip_trivia_tokens(tokens, 0);
    let ghost goal = module_scan(tokens@, trivia_end(tokens@, 0), (false, false, false), Seq::empty());
    loop
        invariant
            features.call_cache.wf(),
            features.call_cache.include_functions.view().len() == 0,
            features.call_cache.optimize_functions.view().len() == 0,
            features.call_cache.exclude_functions.view().len() == 0,
            goal == module_scan(tokens@, trivia_end(tokens@, 0), (false, false, false), Seq::empty()),
            goal == module_scan(
                tokens@,
                index as int,
                (
                    features.call_cache.disable_all,
                    features.call_cache.enable_all,
                    features.call_cache.optimize_all,
                ),
                features.experimental_usages@,
            ),
        decreases tokens.len() - index,
    {
        if index >= tokens.len() {
            return features;
        }
        let annotation = match parse_annotation_name(tokens, index) {
            Some(a) => a,
            None => return features,
        };
        proof {
            lemma_dotted_name(tokens@, index + 1);
            lemma_trivia_end(tokens@, annotation.next_index as int);
        }
        let ghost f0 = (
            features.call_cache.disable_all,
            features.call_cache.enable_all,
            features.call_cache.optimize_all,
        );
        let ghost u0 = features.experimental_usages@;
        proof {
            reveal_strlit("experimental.call_cache");
            reveal_strlit("lang.feat.call_cache");
            reveal_strlit("experimental.no_call_cache");
            reveal_strlit("lang.feat.no_call_cache");
            reveal_strlit("experimental.call_cache.optimize");
            reveal_strlit("experimental.no_call_cache.optimize");
            assert("experimental.call_cache"@.len() == 23);
            assert("lang.feat.call_cache"@.len() == 20);
            assert("experimental.no_call_cache"@.len() == 26);
            assert("lang.feat.no_call_cache"@.len() == 23);
            assert("experimental.call_cache.optimize"@.len() == 32);
            assert("experimental.no_call_cache.optimize"@.len() == 35);
        }
        let name = annotation.name.as_str();
        if str_eq(name, "experimental.call_cache") || str_eq(name, "lang.feat.call_cache") {
            features.call_cache.disable_all = false;
            features.call_cache.enable_all = true;
        } else if str_eq(name, "experimental.no_call_cache") || str_eq(name, "lang.feat.no_call_cache") {
            features.call_cache.disable_all = true;
            features.call_cache.enable_all = false;
            features.call_cache.optimize_all = false;
        } else if str_eq(name, "experimental.call_cache.optimize") {
            features.call_cache.disable_all = false;
            features.call_cache.enable_all = true;
            features.call_cache.optimize_all = true;
            features.experimental_usages.push(
                ExperimentalFeatureUsage { feature: ExperimentalFeature::CallCacheOptimize, span: annotation.span },
            );
        } else if str_eq(name, "experimental.no_call_cache.optimize") {
            features.call_cache.optimize_all = false;
        }
        let ghost f1 = (
            features.call_cache.disable_all,
            features.call_cache.enable_all,
            features.call_cache.optimize_all,
        );
        assert(f1 == module_annotation_effect(f0, annotation.name@));
        assert(features.experimental_usages@ == (if annotation.name@ == "experimental.call_cache.optimize"@ {
            u0.push(ExperimentalFeatureUsage { feature: ExperimentalFeature::CallCacheOptimize, span: annotation.span })
        } else {
            u0
        }));
        index = skip_trivia_tokens(tokens, annotation.next_index);
    }
}

} // verus!

verus! {

/// An annotation on a function: its dotted name and where it stands.
#[derive(Clone, Debug)]
pub struct FunctionAnnotation {
    pub name: String,
    pub span: Span,
}

/// A function of a module, with its annotations in source order.
#[derive(Clone, Debug)]
pub struct AnnotatedFunction {
    pub name: String,
    pub annotations: Vec<FunctionAnnotation>,
}

/// The annotations of one function, each with the function's name.
pub open spec fn function_entries(f: AnnotatedFunction) -> Seq<(Seq<char>, Seq<char>, Span)> {
    f.annotations@.map_values(|a: FunctionAnnotation| (f.name@, a.name@, a.span))
}

/// Every function annotation of a module, in order, with its function's
/// name.
pub open spec fn annotation_list(functions: Seq<AnnotatedFunction>) -> Seq<(Seq<char>, Seq<char>, Span)>
    decreases functions.len(),
{
    if functions.len() == 0 {
        Seq::empty()
    } else {
        annotation_list(functions.drop_last()) + function_entries(functions.last())
    }
}

/// The selected functions `(included, optimized, excluded)`.
pub type SelectionSets = (Set<Seq<char>>, Set<Seq<char>>, Set<Seq<char>>);

/// What an annotation named `name` on the function `function` does to the
/// selected functions.
pub open spec fn function_annotation_effect(s: SelectionSets, function: Seq<char>, name: Seq<char>) -> SelectionSets {
    if name == "experimental.call_cache"@ || name == "lang.feat.call_cache"@ {
        (s.0.insert(function), s.1, s.2.remove(function))
    } else if name == "experimental.call_cache.optimize"@ {
        (s.0.insert(function), s.1.insert(function), s.2.remove(function))
    } else if name == "experimental.no_call_cache"@ || name == "lang.feat.no_call_cache"@ {
        (s.0.remove(function), s.1.remove(function), s.2.insert(function))
    } else if name == "experimental.no_call_cache.optimize"@ {
        (s.0, s.1.remove(function), s.2)
    } else {
        s
    }
}

/// The selected functions after the annotations of `list`, in order.
pub open spec fn merged_selection(s: SelectionSets, list: Seq<(Seq<char>, Seq<char>, Span)>) -> SelectionSets
    decreases list.len(),
{
    if list.len() == 0 {
        s
    } else {
        let e = list.last();
        function_annotation_effect(merged_selection(s, list.drop_last()), e.0, e.1)
    }
}

pub open spec fn selection_sets(sel: CallCacheSelection) -> SelectionSets {
    (
        sel.include_functions.view().to_set(),
        sel.optimize_functions.view().to_set(),
        sel.exclude_functions.view().to_set(),
    )
}

proof fn lemma_annotation_list_step(functions: Seq<AnnotatedFunction>, i: int)
    requires
        0 <= i < functions.len(),
    ensures
        annotation_list(functions.take(i + 1)) == annotation_list(functions.take(i)) + function_entries(
            functions[i],
        ),
{
    assert(functions.take(i + 1).drop_last() =~= functions.take(i));
}

/// Applies the call-cache annotations of the module's functions to
/// `selection`, in source order: `@experimental.call_cache` (or
/// `@lang.feat.call_cache`) selects the function, `.optimize` also selects it
/// for optimization, `@experimental.no_call_cache` (or
/// `@lang.feat.no_call_cache`) excludes it, and
/// `@experimental.no_call_cache.optimize` drops it from optimization.
pub fn merge_function_call_cache_annotations(functions: &Vec<AnnotatedFunction>, selection: &mut CallCacheSelection)
    requires
        old(selection).wf(),
    ensures
        final(selection).wf(),
        selection_sets(*final(selection)) == merged_selection(
            selection_sets(*old(selection)),
            annotation_list(functions@),
        ),
        final(selection).disable_all == old(selection).disable_all,
        final(selection).enable_all == old(selection).enable_all,
        final(selection).optimize_all == old(selection).optimize_all,
{
    let ghost start = selection_sets(*selection);
    let mut i: usize = 0;
    assert(functions@.take(0) =~= Seq::<AnnotatedFunction>::empty());
    while i < functions.len()
        invariant
            i <= functions.len(),
            selection.wf(),
            start == selection_sets(*old(selection)),
            selection.disable_all == old(selection).disable_all,
            selection.enable_all == old(selection).enable_all,
            selection.optimize_all == old(selection).optimize_all,
            selection_sets(*selection) == merged_selection(start, annotation_list(functions@.take(i as int))),
        decreases functions.len() - i,
    {
        let function = &functions[i];
        let ghost prefix = annotation_list(functions@.take(i as int));
        let ghost entries = function_entries(functions@[i as int]);
        proof {
            lemma_annotation_list_step(functions@, i as int);
            reveal_strlit("experimental.call_cache");
            reveal_strlit("lang.feat.call_cache");
            reveal_strlit("experimental.no_call_cache");
            reveal_strlit("lang.feat.no_call_cache");
            reveal_strlit("experimental.call_cache.optimize");
            reveal_strlit("experimental.no_call_cache.optimize");
        }
        assert(prefix + entries.take(0) =~= prefix);
        let mut j: usize = 0;
        while j < function.annotations.len()
            invariant
                j <= function.annotations.len(),
                function == &functions@[i as int],
                entries == function_entries(functions@[i as int]),
                selection.wf(),
                selection.disable_all == old(selection).disable_all,
                selection.enable_all == old(selection).enable_all,
                selection.optimize_all == old(selection).optimize_all,
                selection_sets(*selection) == merged_selection(start, prefix + entries.take(j as int)),
            decreases function.annotations.len() - j,
        {
            let fname = function.name.as_str();
            let aname = function.annotations[j].name.as_str();
            assert((prefix + entries.take(j + 1)).drop_last() =~= prefix + entries.take(j as int));
            assert((prefix + entries.take(j + 1)).last() == (fname@, aname@, function.annotations@[j as int].span));
            if str_eq(aname, "experimental.call_cache") || str_eq(aname, "lang.feat.call_cache") {
                selection.exclude_functions.remove(fname);
                selection.include_functions.insert(copy_str(fname));
            } else if str_eq(aname, "experimental.call_cache.optimize") {
                selection.exclude_functions.remove(fname);
                selection.include_functions.insert(copy_str(fname));
                selection.optimize_functions.insert(copy_str(fname));
            } else if str_eq(aname, "experimental.no_call_cache") || str_eq(aname, "lang.feat.no_call_cache") {
                selection.include_functions.remove(fname);
                selection.optimize_functions.remove(fname);
                selection.exclude_functions.insert(copy_str(fname));
            } else if str_eq(aname, "experimental.no_call_cache.optimize") {
                selection.optimize_functions.remove(fname);
            }
            j += 1;
        }
        assert(entries.take(function.annotations.len() as int) =~= entries);
        i += 1;
    }
    assert(functions@.take(functions.len() as int) =~= functions@);
}

/// The experimental usages among `list`: each `.optimize` annotation, in
/// order.
pub open spec fn optimize_usages(list: Seq<(Seq<char>, Seq<char>, Span)>) -> Seq<ExperimentalFeatureUsage>
    decreases list.len(),
{
    if list.len() == 0 {
        Seq::empty()
    } else {
        let prev = optimize_usages(list.drop_last());
        if list.last().1 == "experimental.call_cache.optimize"@ {
            prev.push(ExperimentalFeatureUsage { feature: ExperimentalFeature::CallCacheOptimize, span: list.last().2 })
        } else {
            prev
        }
    }
}

/// Appends to `usages` the experimental features the module's functions opt
/// into: each `@experimental.call_cache.optimize` annotation, in order.
pub fn collect_experimental_function_features(functions: &Vec<AnnotatedFunction>, usages: &mut Vec<ExperimentalFeatureUsage>)
    ensures
        final(usages)@ == old(usages)@ + optimize_usages(annotation_list(functions@)),
{
    let ghost start = usages@;
    let mut i: usize = 0;
    assert(functions@.take(0) =~= Seq::<AnnotatedFunction>::empty());
    assert(start + Seq::<ExperimentalFeatureUsage>::empty() =~= start);
    while i < functions.len()
        invariant
            i <= functions.len(),
            start == old(usages)@,
            usages@ == start + optimize_usages(annotation_list(functions@.take(i as int))),
        decreases functions.len() - i,
    {
        let function = &functions[i];
        let ghost prefix = annotation_list(functions@.take(i as int));
        let ghost entries = function_entries(functions@[i as int]);
        proof {
            lemma_annotation_list_step(functions@, i as int);
        }
        assert(prefix + entries.take(0) =~= prefix);
        let mut j: usize = 0;
        while j < function.annotations.len()
            invariant
                j <= function.annotations.len(),
                function == &functions@[i as int],
                entries == function_entries(functions@[i as int]),
                usages@ == start + optimize_usages(prefix + entries.take(j as int)),
            decreases function.annotations.len() - j,
        {
            let annotation = &function.annotations[j];
            assert((prefix + entries.take(j + 1)).drop_last() =~= prefix + entries.take(j as int));
            assert((prefix + entries.take(j + 1)).last() == (function.name@, annotation.name@, annotation.span));
            let ghost before = usages@;
            if str_eq(annotation.name.as_str(), "experimental.call_cache.optimize") {
                usages.push(ExperimentalFeatureUsage { feature: ExperimentalFeature::CallCacheOptimize, span: annotation.span });
                assert(usages@ =~= start + optimize_usages(prefix + entries.take(j + 1)));
            }
            j += 1;
        }
        assert(entries.take(function.annotations.len() as int) =~= entries);
        i += 1;
    }
    assert(functions@.take(functions.len() as int) =~= functions@);
}

} // verus!

verus! {

/// A selection is coherent when no function is both selected and excluded
/// and only selected functions are optimized.
pub open spec fn selection_coherent(s: SelectionSets) -> bool {
    &&& s.0.disjoint(s.2)
    &&& s.1.subset_of(s.0)
}

/// Function annotations keep a coherent selection coherent: whatever they
/// say, no function ends both selected and excluded, and only selected
/// functions are optimized.
pub proof fn lemma_merged_selection_coherent(s: SelectionSets, list: Seq<(Seq<char>, Seq<char>, Span)>)
    requires
        selection_coherent(s),
    ensures
        selection_coherent(merged_selection(s, list)),
    decreases list.len(),
{
    if list.len() > 0 {
        lemma_merged_selection_coherent(s, list.drop_last());
        let p = merged_selection(s, list.drop_last());
        let e = list.last();
        let q = function_annotation_effect(p, e.0, e.1);
        assert(q.0.disjoint(q.2));
        assert(q.1.subset_of(q.0));
    }
}

} // verus!
