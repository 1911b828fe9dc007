//! The call-cache profile that an LLVM-built program writes when it exits,
//! read back into a run profile.
//!
//! The file is a header line naming the format version, then one record per
//! line, its fields separated by tabs:
//!
//! * `FN name calls hits stores entries [unique_keys hottest_key_hits]`
//! * `SV name arg_index raw_bits matches` (a stable argument value)
//! * `RD name avg_distance max_distance samples` (reuse distances)
//! * `SP name guard_hits guard_fallbacks` (specialization guard counts)
//! * `SC name signature guard_hits guard_fallbacks` (a specialized clone)
//!
//! Blank lines are skipped. The signature of an `SC` record is read by the
//! profile crate; the reader stops there and asks for it (see
//! `LlvmCallCacheProfileReader`).
//!
//! Each function's specialization hint, which the profile crate derives from
//! its call count and profile once the file is read, is left to that crate:
//! the run profile built here carries no hint.

use vstd::prelude::*;
use crate::text::{
    chars_of, copy_str, decimal, lines, lines_of, parse_u64, parse_usize, push_decimal,
    split_chars, split_on, str_eq, strings_view, trim, trim_ws, u64_parse_error_text,
    unsigned_text_value, usize_parse_error_text,
};

verus! {

/// An argument value seen often enough to specialize on.
#[derive(Clone, Copy, Debug, PartialEq, Eq, Structural)]
pub struct StableScalarValueProfile {
    pub index: usize,
    pub raw_bits: u64,
    pub matches: u64,
}

/// Guard counts of one specialized clone of a function.
#[derive(Clone, Debug)]
pub struct CallCacheSpecializationFeedbackProfile {
    pub stable_values: Vec<StableScalarValueProfile>,
    pub guard_hits: u64,
    pub guard_fallbacks: u64,
}

/// What the profile records of one function beyond its counters. The
/// specialization hint the profile crate derives from these is not held
/// here; it is that crate's to compute.
#[derive(Clone, Debug)]
pub struct CallCacheFunctionProfile {
    pub unique_keys: usize,
    pub hottest_key_hits: u64,
    pub stable_values: Vec<StableScalarValueProfile>,
    pub avg_reuse_distance: Option<u64>,
    pub max_reuse_distance: Option<u64>,
    pub specialization_guard_hits: u64,
    pub specialization_guard_fallbacks: u64,
    pub specialization_profiles: Vec<CallCacheSpecializationFeedbackProfile>,
}

/// The counters of one cached function.
#[derive(Clone, Debug)]
pub struct CallCacheFunctionSnapshot {
    pub name: String,
    pub calls: u64,
    pub hits: u64,
    pub stores: u64,
    pub entries: usize,
    pub profile: CallCacheFunctionProfile,
}

/// The call-cache profile of one run.
#[derive(Clone, Debug)]
pub struct CallCacheRunProfile {
    pub backend: String,
    pub total_calls: u64,
    pub total_hits: u64,
    pub total_stores: u64,
    pub functions: Vec<CallCacheFunctionSnapshot>,
}

/// A specialized clone, as values.
#[verifier::ext_equal]
pub struct SpecializationModel {
    pub stable_values: Seq<StableScalarValueProfile>,
    pub guard_hits: u64,
    pub guard_fallbacks: u64,
}

/// One function's record, as values.
#[verifier::ext_equal]
pub struct FunctionModel {
    pub name: Seq<char>,
    pub calls: u64,
    pub hits: u64,
    pub stores: u64,
    pub entries: usize,
    pub unique_keys: usize,
    pub hottest_key_hits: u64,
    pub stable_values: Seq<StableScalarValueProfile>,
    pub avg_reuse_distance: Option<u64>,
    pub max_reuse_distance: Option<u64>,
    pub specialization_guard_hits: u64,
    pub specialization_guard_fallbacks: u64,
    pub specialization_profiles: Seq<SpecializationModel>,
}

/// A run profile, as values.
#[verifier::ext_equal]
pub struct RunProfileModel {
    pub backend: Seq<char>,
    pub total_calls: u64,
    pub total_hits: u64,
    pub total_stores: u64,
    pub functions: Seq<FunctionModel>,
}

pub open spec fn specializations_view(v: Seq<CallCacheSpecializationFeedbackProfile>) -> Seq<SpecializationModel> {
    v.map_values(|p: CallCacheSpecializationFeedbackProfile| p@)
}

impl View for CallCacheSpecializationFeedbackProfile {
    type V = SpecializationModel;

    open spec fn view(&self) -> SpecializationModel {
        SpecializationModel {
            stable_values: self.stable_values@,
            guard_hits: self.guard_hits,
            guard_fallbacks: self.guard_fallbacks,
        }
    }
}

impl View for CallCacheFunctionSnapshot {
    type V = FunctionModel;

    open spec fn view(&self) -> FunctionModel {
        FunctionModel {
            name: self.name@,
            calls: self.calls,
            hits: self.hits,
            stores: self.stores,
            entries: self.entries,
            unique_keys: self.profile.unique_keys,
            hottest_key_hits: self.profile.hottest_key_hits,
            stable_values: self.profile.stable_values@,
            avg_reuse_distance: self.profile.avg_reuse_distance,
            max_reuse_distance: self.profile.max_reuse_distance,
            specialization_guard_hits: self.profile.specialization_guard_hits,
            specialization_guard_fallbacks: self.profile.specialization_guard_fallbacks,
            specialization_profiles: specializations_view(self.profile.specialization_profiles@),
        }
    }
}

impl View for CallCacheRunProfile {
    type V = RunProfileModel;

    open spec fn view(&self) -> RunProfileModel {
        RunProfileModel {
            backend: self.backend@,
            total_calls: self.total_calls,
            total_hits: self.total_hits,
            total_stores: self.total_stores,
            functions: functions_view(self.functions@),
        }
    }
}

} // verus!

verus! {

/// Index of the function last recorded under `name`.
pub open spec fn function_index_of(functions: Seq<FunctionModel>, name: Seq<char>) -> Option<int>
    decreases functions.len(),
{
    if functions.len() == 0 {
        None
    } else if functions.last().name == name {
        Some(functions.len() - 1)
    } else {
        function_index_of(functions.drop_last(), name)
    }
}

pub proof fn lemma_function_index_of(functions: Seq<FunctionModel>, name: Seq<char>)
    ensures
        match function_index_of(functions, name) {
            Some(i) => 0 <= i < functions.len() && functions[i].name == name && forall|k: int|
                i < k < functions.len() ==> #[trigger] functions[k].name != name,
            None => forall|k: int| 0 <= k < functions.len() ==> #[trigger] functions[k].name != name,
        },
    decreases functions.len(),
{
    if functions.len() > 0 {
        let n = functions.len() - 1;
        assert(functions.last() == functions[n]);
        if functions.last().name != name {
            let d = functions.drop_last();
            lemma_function_index_of(d, name);
            assert forall|k: int| 0 <= k < n implies functions[k] == #[trigger] d[k] by {}
            match function_index_of(functions, name) {
                Some(i) => {
                    assert(functions[i] == d[i]);
                    assert forall|k: int| i < k < functions.len() implies #[trigger] functions[k].name != name by {
                        if k < n {
                            assert(functions[k] == d[k]);
                        }
                    }
                },
                None => {
                    assert forall|k: int| 0 <= k < functions.len() implies #[trigger] functions[k].name != name by {
                        if k < n {
                            assert(functions[k] == d[k]);
                        }
                    }
                },
            }
        }
    }
}

pub open spec fn malformed_line_message(kind: Seq<char>, line_number: nat, line: Seq<char>) -> Seq<char> {
    "invalid LLVM call-cache "@ + kind + " line "@ + decimal(line_number) + ": `"@ + line + "`"@
}

pub open spec fn unknown_function_message(kind: Seq<char>, line_number: nat, name: Seq<char>) -> Seq<char> {
    "LLVM call-cache "@ + kind + " line "@ + decimal(line_number) + " references unknown function `"@
        + name + "`"@
}

pub open spec fn bad_field_message(what: Seq<char>, line_number: nat, error: Seq<char>) -> Seq<char> {
    "invalid LLVM call-cache "@ + what + " on line "@ + decimal(line_number) + ": "@ + error
}

/// A `u64` field, or the error naming it.
pub open spec fn u64_field(text: Seq<char>, what: Seq<char>, line_number: nat) -> Result<u64, Seq<char>> {
    match unsigned_text_value(text) {
        Some(v) => if v <= u64::MAX {
            Ok(v as u64)
        } else {
            Err(bad_field_message(what, line_number, u64_parse_error_text(text)))
        },
        None => Err(bad_field_message(what, line_number, u64_parse_error_text(text))),
    }
}

/// A `usize` field, or the error naming it.
pub open spec fn usize_field(text: Seq<char>, what: Seq<char>, line_number: nat) -> Result<usize, Seq<char>> {
    match unsigned_text_value(text) {
        Some(v) => if v <= usize::MAX {
            Ok(v as usize)
        } else {
            Err(bad_field_message(what, line_number, usize_parse_error_text(text)))
        },
        None => Err(bad_field_message(what, line_number, usize_parse_error_text(text))),
    }
}

/// A profile with no function.
pub open spec fn empty_profile() -> RunProfileModel {
    RunProfileModel {
        backend: "llvm"@,
        total_calls: 0,
        total_hits: 0,
        total_stores: 0,
        functions: Seq::empty(),
    }
}

/// The unique-key count and hottest-key hits of an `FN` record: its last two
/// fields when it has eight, else the larger of its entry and store counts
/// and zero.
pub open spec fn key_counts(parts: Seq<Seq<char>>, entries: usize, stores: u64, line_number: nat) -> Result<(usize, u64), Seq<char>> {
    if parts.len() == 8 {
        match usize_field(parts[6], "unique-key count"@, line_number) {
            Err(e) => Err(e),
            Ok(u) => match u64_field(parts[7], "hottest-key hit count"@, line_number) {
                Err(e) => Err(e),
                Ok(h) => Ok((u, h)),
            },
        }
    } else {
        let s = stores as usize;
        Ok((if entries >= s { entries } else { s }, 0))
    }
}

/// An `FN` record: a new function, whose counters are added to the totals
/// (saturating).
pub open spec fn function_record(p: RunProfileModel, line_number: nat, parts: Seq<Seq<char>>) -> Result<RunProfileModel, Seq<char>> {
    match u64_field(parts[2], "call count"@, line_number) {
        Err(e) => Err(e),
        Ok(calls) => match u64_field(parts[3], "hit count"@, line_number) {
            Err(e) => Err(e),
            Ok(hits) => match u64_field(parts[4], "store count"@, line_number) {
                Err(e) => Err(e),
                Ok(stores) => match usize_field(parts[5], "entry count"@, line_number) {
                    Err(e) => Err(e),
                    Ok(entries) => match key_counts(parts, entries, stores, line_number) {
                        Err(e) => Err(e),
                        Ok((unique_keys, hottest_key_hits)) => Ok(
                            RunProfileModel {
                                total_calls: p.total_calls.saturating_add(calls),
                                total_hits: p.total_hits.saturating_add(hits),
                                total_stores: p.total_stores.saturating_add(stores),
                                functions: p.functions.push(
                                    FunctionModel {
                                        name: parts[1],
                                        calls,
                                        hits,
                                        stores,
                                        entries,
                                        unique_keys,
                                        hottest_key_hits,
                                        stable_values: Seq::empty(),
                                        avg_reuse_distance: None,
                                        max_reuse_distance: None,
                                        specialization_guard_hits: 0,
                                        specialization_guard_fallbacks: 0,
                                        specialization_profiles: Seq::empty(),
                                    },
                                ),
                                ..p
                            },
                        ),
                    },
                },
            },
        },
    }
}

/// An `SV` record: a stable argument value of a known function, kept when
/// it matched at least once.
pub open spec fn stable_value_record(p: RunProfileModel, line_number: nat, parts: Seq<Seq<char>>) -> Result<RunProfileModel, Seq<char>> {
    match function_index_of(p.functions, parts[1]) {
        None => Err(unknown_function_message("stable-value"@, line_number, parts[1])),
        Some(i) => match usize_field(parts[2], "stable-value index"@, line_number) {
            Err(e) => Err(e),
            Ok(index) => match u64_field(parts[3], "stable-value bits"@, line_number) {
                Err(e) => Err(e),
                Ok(raw_bits) => match u64_field(parts[4], "stable-value score"@, line_number) {
                    Err(e) => Err(e),
                    Ok(score) => if score > 0 {
                        let f = p.functions[i];
                        Ok(
                            RunProfileModel {
                                functions: p.functions.update(
                                    i,
                                    FunctionModel {
                                        stable_values: f.stable_values.push(
                                            StableScalarValueProfile { index, raw_bits, matches: score },
                                        ),
                                        ..f
                                    },
                                ),
                                ..p
                            },
                        )
                    } else {
                        Ok(p)
                    },
                },
            },
        },
    }
}

/// An `RD` record: reuse distances of a known function, kept when it has
/// samples.
pub open spec fn reuse_distance_record(p: RunProfileModel, line_number: nat, parts: Seq<Seq<char>>) -> Result<RunProfileModel, Seq<char>> {
    match function_index_of(p.functions, parts[1]) {
        None => Err(unknown_function_message("reuse-distance"@, line_number, parts[1])),
        Some(i) => match u64_field(parts[2], "avg reuse distance"@, line_number) {
            Err(e) => Err(e),
            Ok(avg) => match u64_field(parts[3], "max reuse distance"@, line_number) {
                Err(e) => Err(e),
                Ok(max) => match u64_field(parts[4], "reuse sample count"@, line_number) {
                    Err(e) => Err(e),
                    Ok(samples) => if samples > 0 {
                        let f = p.functions[i];
                        Ok(
                            RunProfileModel {
                                functions: p.functions.update(
                                    i,
                                    FunctionModel {
                                        avg_reuse_distance: Some(avg),
                                        max_reuse_distance: Some(max),
                                        ..f
                                    },
                                ),
                                ..p
                            },
                        )
                    } else {
                        Ok(p)
                    },
                },
            },
        },
    }
}

/// An `SP` record: the specialization guard counts of a known function.
pub open spec fn specialization_record(p: RunProfileModel, line_number: nat, parts: Seq<Seq<char>>) -> Result<RunProfileModel, Seq<char>> {
    match function_index_of(p.functions, parts[1]) {
        None => Err(unknown_function_message("specialization"@, line_number, parts[1])),
        Some(i) => match u64_field(parts[2], "specialization hit count"@, line_number) {
            Err(e) => Err(e),
            Ok(hits) => match u64_field(parts[3], "specialization fallback count"@, line_number) {
                Err(e) => Err(e),
                Ok(fallbacks) => {
                    let f = p.functions[i];
                    Ok(
                        RunProfileModel {
                            functions: p.functions.update(
                                i,
                                FunctionModel {
                                    specialization_guard_hits: hits,
                                    specialization_guard_fallbacks: fallbacks,
                                    ..f
                                },
                            ),
                            ..p
                        },
                    )
                },
            },
        },
    }
}

/// An `SC` record whose signature is still to be read: the function it
/// belongs to, its line, its signature and its two guard counts as text.
pub struct PendingCloneModel {
    pub function: int,
    pub line_number: nat,
    pub signature: Seq<char>,
    pub guard_hits: Seq<char>,
    pub guard_fallbacks: Seq<char>,
}

/// What one line of the profile does to the profile read so far: a new
/// profile, possibly with a specialized clone whose signature must be read
/// first, or the error that ends the reading.
pub open spec fn line_effect(p: RunProfileModel, line_number: nat, line: Seq<char>) -> Result<(RunProfileModel, Option<PendingCloneModel>), Seq<char>> {
    if trim_ws(line).len() == 0 {
        Ok((p, None))
    } else {
        let parts = split_on(line, '\t');
        let kind = parts[0];
        if kind == "FN"@ {
            if parts.len() != 6 && parts.len() != 8 {
                Err(malformed_line_message("profile"@, line_number, line))
            } else {
                match function_record(p, line_number, parts) {
                    Ok(q) => Ok((q, None)),
                    Err(e) => Err(e),
                }
            }
        } else if kind == "SV"@ {
            if parts.len() != 5 {
                Err(malformed_line_message("stable-value"@, line_number, line))
            } else {
                match stable_value_record(p, line_number, parts) {
                    Ok(q) => Ok((q, None)),
                    Err(e) => Err(e),
                }
            }
        } else if kind == "RD"@ {
            if parts.len() != 5 {
                Err(malformed_line_message("reuse-distance"@, line_number, line))
            } else {
                match reuse_distance_record(p, line_number, parts) {
                    Ok(q) => Ok((q, None)),
                    Err(e) => Err(e),
                }
            }
        } else if kind == "SP"@ {
            if parts.len() != 4 {
                Err(malformed_line_message("specialization"@, line_number, line))
            } else {
                match specialization_record(p, line_number, parts) {
                    Ok(q) => Ok((q, None)),
                    Err(e) => Err(e),
                }
            }
        } else if kind == "SC"@ {
            if parts.len() != 5 {
                Err(malformed_line_message("specialization-clone"@, line_number, line))
            } else {
                match function_index_of(p.functions, parts[1]) {
                    None => Err(unknown_function_message("specialization-clone"@, line_number, parts[1])),
                    Some(i) => Ok(
                        (
                            p,
                            Some(
                                PendingCloneModel {
                                    function: i,
                                    line_number,
                                    signature: parts[2],
                                    guard_hits: parts[3],
                                    guard_fallbacks: parts[4],
                                },
                            ),
                        ),
                    ),
                }
            }
        } else {
            Err(malformed_line_message("profile"@, line_number, line))
        }
    }
}

/// The clone of a pending `SC` record once its signature reads as `parsed`:
/// kept when it has stable values and its guards fired at all.
pub open spec fn clone_effect(p: RunProfileModel, pending: PendingCloneModel, parsed: Result<Seq<StableScalarValueProfile>, Seq<char>>) -> Result<RunProfileModel, Seq<char>> {
    match parsed {
        Err(e) => Err(bad_field_message("specialization-clone signature"@, pending.line_number, e)),
        Ok(values) => match u64_field(pending.guard_hits, "specialization-clone hit count"@, pending.line_number) {
            Err(e) => Err(e),
            Ok(hits) => match u64_field(
                pending.guard_fallbacks,
                "specialization-clone fallback count"@,
                pending.line_number,
            ) {
                Err(e) => Err(e),
                Ok(fallbacks) => if values.len() > 0 && hits.saturating_add(fallbacks) > 0 {
                    let f = p.functions[pending.function];
                    Ok(
                        RunProfileModel {
                            functions: p.functions.update(
                                pending.function,
                                FunctionModel {
                                    specialization_profiles: f.specialization_profiles.push(
                                        SpecializationModel {
                                            stable_values: values,
                                            guard_hits: hits,
                                            guard_fallbacks: fallbacks,
                                        },
                                    ),
                                    ..f
                                },
                            ),
                            ..p
                        },
                    )
                } else {
                    Ok(p)
                },
            },
        },
    }
}

} // verus!

verus! {

fn bad_field(what: &str, line_number: u128, error: &str) -> (r: String)
    ensures
        r@ == bad_field_message(what@, line_number as nat, error@),
{
    let mut s = String::new();
    s.append("invalid LLVM call-cache ");
    s.append(what);
    s.append(" on line ");
    push_decimal(&mut s, line_number);
    s.append(": ");
    s.append(error);
    s
}

fn field_u64(text: &str, what: &str, line_number: u128) -> (r: Result<u64, String>)
    ensures
        match u64_field(text@, what@, line_number as nat) {
            Ok(v) => r == Ok::<u64, String>(v),
            Err(e) => r is Err && r->Err_0@ == e,
        },
{
    match parse_u64(text) {
        Ok(v) => Ok(v),
        Err(e) => Err(bad_field(what, line_number, e.as_str())),
    }
}

fn field_usize(text: &str, what: &str, line_number: u128) -> (r: Result<usize, String>)
    ensures
        match usize_field(text@, what@, line_number as nat) {
            Ok(v) => r == Ok::<usize, String>(v),
            Err(e) => r is Err && r->Err_0@ == e,
        },
{
    match parse_usize(text) {
        Ok(v) => Ok(v),
        Err(e) => Err(bad_field(what, line_number, e.as_str())),
    }
}

pub open spec fn functions_view(v: Seq<CallCacheFunctionSnapshot>) -> Seq<FunctionModel> {
    v.map_values(|f: CallCacheFunctionSnapshot| f@)
}

fn find_function(functions: &Vec<CallCacheFunctionSnapshot>, name: &str) -> (r: Option<usize>)
    ensures
        match function_index_of(functions_view(functions@), name@) {
            Some(i) => r is Some && r->0 as int == i,
            None => r is None,
        },
{
    let mut i: usize = functions.len();
    assert(functions_view(functions@).take(i as int) =~= functions_view(functions@));
    while i > 0
        invariant
            i <= functions.len(),
            function_index_of(functions_view(functions@), name@) == function_index_of(
                functions_view(functions@).take(i as int),
                name@,
            ),
        decreases i,
    {
        let ghost fs = functions_view(functions@).take(i as int);
        assert(fs.last() == functions@[i - 1]@);
        assert(fs.drop_last() =~= functions_view(functions@).take(i - 1));
        if str_eq(functions[i - 1].name.as_str(), name) {
            return Some(i - 1);
        }
        i -= 1;
    }
    None
}

fn unknown_function(kind: &str, line_number: u128, name: &str) -> (r: String)
    ensures
        r@ == unknown_function_message(kind@, line_number as nat, name@),
{
    let mut s = String::new();
    s.append("LLVM call-cache ");
    s.append(kind);
    s.append(" line ");
    push_decimal(&mut s, line_number);
    s.append(" references unknown function `");
    s.append(name);
    s.append("`");
    s
}

fn malformed_line(kind: &str, line_number: u128, line: &str) -> (r: String)
    ensures
        r@ == malformed_line_message(kind@, line_number as nat, line@),
{
    let mut s = String::new();
    s.append("invalid LLVM call-cache ");
    s.append(kind);
    s.append(" line ");
    push_decimal(&mut s, line_number);
    s.append(": `");
    s.append(line);
    s.append("`");
    s
}

fn apply_function_record(p: &mut CallCacheRunProfile, line_number: u128, parts: &Vec<String>) -> (r: Result<(), String>)
    requires
        parts.len() == 6 || parts.len() == 8,
    ensures
        match function_record(old(p)@, line_number as nat, strings_view(parts@)) {
            Ok(q) => r is Ok && final(p)@ == q,
            Err(e) => r is Err && r->Err_0@ == e && final(p)@ == old(p)@,
        },
{
    let ghost sv = strings_view(parts@);
    assert(sv[2] == parts@[2]@ && sv[3] == parts@[3]@ && sv[4] == parts@[4]@ && sv[5] == parts@[5]@);
    let calls = match field_u64(parts[2].as_str(), "call count", line_number) {
        Ok(v) => v,
        Err(e) => return Err(e),
    };
    let hits = match field_u64(parts[3].as_str(), "hit count", line_number) {
        Ok(v) => v,
        Err(e) => return Err(e),
    };
    let stores = match field_u64(parts[4].as_str(), "store count", line_number) {
        Ok(v) => v,
        Err(e) => return Err(e),
    };
    let entries = match field_usize(parts[5].as_str(), "entry count", line_number) {
        Ok(v) => v,
        Err(e) => return Err(e),
    };
    let (unique_keys, hottest_key_hits) = if parts.len() == 8 {
        assert(sv[6] == parts@[6]@ && sv[7] == parts@[7]@);
        let u = match field_usize(parts[6].as_str(), "unique-key count", line_number) {
            Ok(v) => v,
            Err(e) => return Err(e),
        };
        let h = match field_u64(parts[7].as_str(), "hottest-key hit count", line_number) {
            Ok(v) => v,
            Err(e) => return Err(e),
        };
        (u, h)
    } else {
        let s = stores as usize;
        (if entries >= s { entries } else { s }, 0)
    };
    assert(sv[1] == parts@[1]@);
    p.total_calls = p.total_calls.saturating_add(calls);
    p.total_hits = p.total_hits.saturating_add(hits);
    p.total_stores = p.total_stores.saturating_add(stores);
    let snapshot = CallCacheFunctionSnapshot {
        name: copy_str(parts[1].as_str()),
        calls,
        hits,
        stores,
        entries,
        profile: CallCacheFunctionProfile {
            unique_keys,
            hottest_key_hits,
            stable_values: Vec::new(),
            avg_reuse_distance: None,
            max_reuse_distance: None,
            specialization_guard_hits: 0,
            specialization_guard_fallbacks: 0,
            specialization_profiles: Vec::new(),
        },
    };
    let ghost before = p.functions@;
    p.functions.push(snapshot);
    assert(functions_view(p.functions@) =~= functions_view(before).push(snapshot@));
    assert(snapshot@.specialization_profiles =~= Seq::<SpecializationModel>::empty());
    Ok(())
}

} // verus!

verus! {

fn apply_stable_value_record(p: &mut CallCacheRunProfile, line_number: u128, parts: &Vec<String>) -> (r: Result<(), String>)
    requires
        parts.len() == 5,
    ensures
        match stable_value_record(old(p)@, line_number as nat, strings_view(parts@)) {
            Ok(q) => r is Ok && final(p)@ == q,
            Err(e) => r is Err && r->Err_0@ == e && final(p)@ == old(p)@,
        },
{
    let ghost sv = strings_view(parts@);
    assert(sv[1] == parts@[1]@ && sv[2] == parts@[2]@ && sv[3] == parts@[3]@ && sv[4] == parts@[4]@);
    let i = match find_function(&p.functions, parts[1].as_str()) {
        Some(i) => i,
        None => return Err(unknown_function("stable-value", line_number, parts[1].as_str())),
    };
    proof {
        lemma_function_index_of(functions_view(p.functions@), parts@[1]@);
    }
    let index = match field_usize(parts[2].as_str(), "stable-value index", line_number) {
        Ok(v) => v,
        Err(e) => return Err(e),
    };
    let raw_bits = match field_u64(parts[3].as_str(), "stable-value bits", line_number) {
        Ok(v) => v,
        Err(e) => return Err(e),
    };
    let score = match field_u64(parts[4].as_str(), "stable-value score", line_number) {
        Ok(v) => v,
        Err(e) => return Err(e),
    };
    if score > 0 {
        let ghost before = p.functions@;
        p.functions[i].profile.stable_values.push(StableScalarValueProfile { index, raw_bits, matches: score });
        assert(functions_view(p.functions@) =~= functions_view(before).update(
            i as int,
            FunctionModel {
                stable_values: before[i as int]@.stable_values.push(
                    StableScalarValueProfile { index, raw_bits, matches: score },
                ),
                ..before[i as int]@
            },
        ));
    }
    Ok(())
}

} // verus!

verus! {

fn apply_reuse_distance_record(p: &mut CallCacheRunProfile, line_number: u128, parts: &Vec<String>) -> (r: Result<(), String>)
    requires
        parts.len() == 5,
    ensures
        match reuse_distance_record(old(p)@, line_number as nat, strings_view(parts@)) {
            Ok(q) => r is Ok && final(p)@ == q,
            Err(e) => r is Err && r->Err_0@ == e && final(p)@ == old(p)@,
        },
{
    let ghost sv = strings_view(parts@);
    assert(sv[1] == parts@[1]@ && sv[2] == parts@[2]@ && sv[3] == parts@[3]@ && sv[4] == parts@[4]@);
    let i = match find_function(&p.functions, parts[1].as_str()) {
        Some(i) => i,
        None => return Err(unknown_function("reuse-distance", line_number, parts[1].as_str())),
    };
    proof {
        lemma_function_index_of(functions_view(p.functions@), parts@[1]@);
    }
    let avg = match field_u64(parts[2].as_str(), "avg reuse distance", line_number) {
        Ok(v) => v,
        Err(e) => return Err(e),
    };
    let max = match field_u64(parts[3].as_str(), "max reuse distance", line_number) {
        Ok(v) => v,
        Err(e) => return Err(e),
    };
    let samples = match field_u64(parts[4].as_str(), "reuse sample count", line_number) {
        Ok(v) => v,
        Err(e) => return Err(e),
    };
    if samples > 0 {
        let ghost before = p.functions@;
        p.functions[i].profile.avg_reuse_distance = Some(avg);
        p.functions[i].profile.max_reuse_distance = Some(max);
        assert(functions_view(p.functions@) =~= functions_view(before).update(
            i as int,
            FunctionModel {
                avg_reuse_distance: Some(avg),
                max_reuse_distance: Some(max),
                ..before[i as int]@
            },
        ));
    }
    Ok(())
}

fn apply_specialization_record(p: &mut CallCacheRunProfile, line_number: u128, parts: &Vec<String>) -> (r: Result<(), String>)
    requires
        parts.len() == 4,
    ensures
        match specialization_record(old(p)@, line_number as nat, strings_view(parts@)) {
            Ok(q) => r is Ok && final(p)@ == q,
            Err(e) => r is Err && r->Err_0@ == e && final(p)@ == old(p)@,
        },
{
    let ghost sv = strings_view(parts@);
    assert(sv[1] == parts@[1]@ && sv[2] == parts@[2]@ && sv[3] == parts@[3]@);
    let i = match find_function(&p.functions, parts[1].as_str()) {
        Some(i) => i,
        None => return Err(unknown_function("specialization", line_number, parts[1].as_str())),
    };
    proof {
        lemma_function_index_of(functions_view(p.functions@), parts@[1]@);
    }
    let hits = match field_u64(parts[2].as_str(), "specialization hit count", line_number) {
        Ok(v) => v,
        Err(e) => return Err(e),
    };
    let fallbacks = match field_u64(parts[3].as_str(), "specialization fallback count", line_number) {
        Ok(v) => v,
        Err(e) => return Err(e),
    };
    let ghost before = p.functions@;
    p.functions[i].profile.specialization_guard_hits = hits;
    p.functions[i].profile.specialization_guard_fallbacks = fallbacks;
    assert(functions_view(p.functions@) =~= functions_view(before).update(
        i as int,
        FunctionModel {
            specialization_guard_hits: hits,
            specialization_guard_fallbacks: fallbacks,
            ..before[i as int]@
        },
    ));
    Ok(())
}

} // verus!

verus! {

/// An `SC` record waiting for its signature to be read.
#[derive(Clone, Debug)]
struct PendingClone {
    function: usize,
    line_number: u128,
    signature: String,
    guard_hits: String,
    guard_fallbacks: String,
}

impl View for PendingClone {
    type V = PendingCloneModel;

    closed spec fn view(&self) -> PendingCloneModel {
        PendingCloneModel {
            function: self.function as int,
            line_number: self.line_number as nat,
            signature: self.signature@,
            guard_hits: self.guard_hits@,
            guard_fallbacks: self.guard_fallbacks@,
        }
    }
}

spec fn pending_view(p: Option<PendingClone>) -> Option<PendingCloneModel> {
    match p {
        Some(c) => Some(c@),
        None => None,
    }
}

/// Applies one line of the profile to `p`.
fn apply_line(p: &mut CallCacheRunProfile, line_number: u128, line: &str) -> (r: Result<Option<PendingClone>, String>)
    ensures
        match line_effect(old(p)@, line_number as nat, line@) {
            Ok((q, pending)) => r is Ok && final(p)@ == q && pending_view(r->Ok_0) == pending,
            Err(e) => r is Err && r->Err_0@ == e && final(p)@ == old(p)@,
        },
        r matches Ok(Some(c)) ==> c.function < final(p).functions.len(),
{
    let t = trim(line);
    if t.as_str().is_empty() {
        return Ok(None);
    }
    let parts = split_chars(&chars_of(line), '\t');
    proof {
        crate::text::lemma_split_on_len(line@, '\t');
    }
    let ghost sv = strings_view(parts@);
    assert(sv[0] == parts@[0]@);
    let kind = parts[0].as_str();
    if str_eq(kind, "FN") {
        if parts.len() != 6 && parts.len() != 8 {
            return Err(malformed_line("profile", line_number, line));
        }
        match apply_function_record(p, line_number, &parts) {
            Ok(()) => Ok(None),
            Err(e) => Err(e),
        }
    } else if str_eq(kind, "SV") {
        if parts.len() != 5 {
            return Err(malformed_line("stable-value", line_number, line));
        }
        match apply_stable_value_record(p, line_number, &parts) {
            Ok(()) => Ok(None),
            Err(e) => Err(e),
        }
    } else if str_eq(kind, "RD") {
        if parts.len() != 5 {
            return Err(malformed_line("reuse-distance", line_number, line));
        }
        match apply_reuse_distance_record(p, line_number, &parts) {
            Ok(()) => Ok(None),
            Err(e) => Err(e),
        }
    } else if str_eq(kind, "SP") {
        if parts.len() != 4 {
            return Err(malformed_line("specialization", line_number, line));
        }
        match apply_specialization_record(p, line_number, &parts) {
            Ok(()) => Ok(None),
            Err(e) => Err(e),
        }
    } else if str_eq(kind, "SC") {
        if parts.len() != 5 {
            return Err(malformed_line("specialization-clone", line_number, line));
        }
        assert(sv[1] == parts@[1]@ && sv[2] == parts@[2]@ && sv[3] == parts@[3]@ && sv[4] == parts@[4]@);
        match find_function(&p.functions, parts[1].as_str()) {
            None => Err(unknown_function("specialization-clone", line_number, parts[1].as_str())),
            Some(i) => {
                proof {
                    lemma_function_index_of(functions_view(p.functions@), parts@[1]@);
                }
                Ok(
                    Some(
                        PendingClone {
                            function: i,
                            line_number,
                            signature: copy_str(parts[2].as_str()),
                            guard_hits: copy_str(parts[3].as_str()),
                            guard_fallbacks: copy_str(parts[4].as_str()),
                        },
                    ),
                )
            },
        }
    } else {
        Err(malformed_line("profile", line_number, line))
    }
}

/// Applies a pending `SC` record whose signature read as `parsed`.
fn apply_clone(p: &mut CallCacheRunProfile, pending: &PendingClone, parsed: Result<Vec<StableScalarValueProfile>, String>) -> (r: Result<(), String>)
    requires
        pending.function < old(p).functions.len(),
    ensures
        match clone_effect(
            old(p)@,
            pending@,
            match parsed {
                Ok(v) => Ok(v@),
                Err(e) => Err(e@),
            },
        ) {
            Ok(q) => r is Ok && final(p)@ == q,
            Err(e) => r is Err && r->Err_0@ == e && final(p)@ == old(p)@,
        },
        final(p).functions.len() == old(p).functions.len(),
{
    let values = match parsed {
        Ok(v) => v,
        Err(e) => return Err(bad_field("specialization-clone signature", pending.line_number, e.as_str())),
    };
    let hits = match field_u64(pending.guard_hits.as_str(), "specialization-clone hit count", pending.line_number) {
        Ok(v) => v,
        Err(e) => return Err(e),
    };
    let fallbacks = match field_u64(
        pending.guard_fallbacks.as_str(),
        "specialization-clone fallback count",
        pending.line_number,
    ) {
        Ok(v) => v,
        Err(e) => return Err(e),
    };
    if values.len() > 0 && hits.saturating_add(fallbacks) > 0 {
        let i = pending.function;
        let ghost before = p.functions@;
        let ghost vals = values@;
        let clone = CallCacheSpecializationFeedbackProfile {
            stable_values: values,
            guard_hits: hits,
            guard_fallbacks: fallbacks,
        };
        let ghost before_specs = p.functions@[i as int].profile.specialization_profiles@;
        p.functions[i].profile.specialization_profiles.push(clone);
        assert(specializations_view(p.functions@[i as int].profile.specialization_profiles@) =~= specializations_view(before_specs).push(clone@));
        assert(functions_view(p.functions@) =~= functions_view(before).update(
            i as int,
            FunctionModel {
                specialization_profiles: before[i as int]@.specialization_profiles.push(
                    SpecializationModel { stable_values: vals, guard_hits: hits, guard_fallbacks: fallbacks },
                ),
                ..before[i as int]@
            },
        ));
    }
    Ok(())
}

} // verus!

verus! {

fn empty_run_profile() -> (r: CallCacheRunProfile)
    ensures
        r@ == empty_profile(),
        r.functions.len() == 0,
{
    let r = CallCacheRunProfile {
        backend: "llvm".to_string(),
        total_calls: 0,
        total_hits: 0,
        total_stores: 0,
        functions: Vec::new(),
    };
    assert(r@ =~= empty_profile());
    r
}

/// Whether `header` names a profile format this reader understands.
pub open spec fn supported_header(header: Seq<char>) -> bool {
    header == "AGAM_LLVM_CALL_CACHE_PROFILE_V1"@ || header == "AGAM_LLVM_CALL_CACHE_PROFILE_V2"@
        || header == "AGAM_LLVM_CALL_CACHE_PROFILE_V3"@ || header
        == "AGAM_LLVM_CALL_CACHE_PROFILE_V4"@ || header == "AGAM_LLVM_CALL_CACHE_PROFILE_V5"@
        || header == "AGAM_LLVM_CALL_CACHE_PROFILE_V6"@
}

/// Where a reader stands: the record lines after the header, the index of
/// the next one, the profile read so far, and the clone whose signature it
/// waits for.
pub struct ReaderModel {
    pub lines: Seq<Seq<char>>,
    pub next: nat,
    pub profile: RunProfileModel,
    pub pending: Option<PendingCloneModel>,
}

/// The reader over `text`, or why `text` is no profile: it has no line, or
/// its header names no known format.
pub open spec fn reader_start(text: Seq<char>) -> Result<ReaderModel, Seq<char>> {
    let ls = lines_of(text);
    if ls.len() == 0 {
        Err("empty LLVM call-cache profile"@)
    } else {
        let header = trim_ws(ls[0]);
        if !supported_header(header) {
            Err("unsupported LLVM call-cache profile header `"@ + header + "`"@)
        } else {
            Ok(ReaderModel { lines: ls.drop_first(), next: 0, profile: empty_profile(), pending: None })
        }
    }
}

/// What a reader does next.
pub enum ProfileStep {
    /// Every line has been read.
    Finished,
    /// One more line has been read.
    Advanced,
    /// A specialized clone needs its signature read (this text) before the
    /// reader can go on.
    NeedsSignature(String),
}

pub enum ProfileStepModel {
    Finished,
    Advanced,
    NeedsSignature(Seq<char>),
}

impl View for ProfileStep {
    type V = ProfileStepModel;

    open spec fn view(&self) -> ProfileStepModel {
        match self {
            ProfileStep::Finished => ProfileStepModel::Finished,
            ProfileStep::Advanced => ProfileStepModel::Advanced,
            ProfileStep::NeedsSignature(s) => ProfileStepModel::NeedsSignature(s@),
        }
    }
}

/// One step of a reader: while a clone waits for its signature it asks for
/// it again; otherwise it reads the next line (numbered from the header,
/// which is line 1), or reports that none is left.
pub open spec fn reader_step(r: ReaderModel) -> Result<(ReaderModel, ProfileStepModel), Seq<char>> {
    match r.pending {
        Some(c) => Ok((r, ProfileStepModel::NeedsSignature(c.signature))),
        None => if r.next >= r.lines.len() {
            Ok((r, ProfileStepModel::Finished))
        } else {
            match line_effect(r.profile, r.next + 2, r.lines[r.next as int]) {
                Err(e) => Err(e),
                Ok((q, pending)) => Ok(
                    (
                        ReaderModel { next: r.next + 1, profile: q, pending, ..r },
                        match pending {
                            Some(c) => ProfileStepModel::NeedsSignature(c.signature),
                            None => ProfileStepModel::Advanced,
                        },
                    ),
                ),
            }
        },
    }
}

/// The reader once the waiting clone's signature read as `parsed`; nothing
/// changes when no clone waits.
pub open spec fn reader_resume(r: ReaderModel, parsed: Result<Seq<StableScalarValueProfile>, Seq<char>>) -> Result<ReaderModel, Seq<char>> {
    match r.pending {
        None => Ok(r),
        Some(c) => match clone_effect(r.profile, c, parsed) {
            Ok(q) => Ok(ReaderModel { profile: q, pending: None, ..r }),
            Err(e) => Err(e),
        },
    }
}

/// Reads an LLVM call-cache profile line by line. The signatures of
/// specialized clones are read by the profile crate: when `step` answers
/// `NeedsSignature`, the caller reads that signature and hands the outcome
/// to `resume`.
pub struct LlvmCallCacheProfileReader {
    lines: Vec<String>,
    next: usize,
    profile: CallCacheRunProfile,
    pending: Option<PendingClone>,
}

impl LlvmCallCacheProfileReader {
    #[verifier::type_invariant]
    spec fn reader_inv(self) -> bool {
        &&& self.next <= self.lines.len()
        &&& self.pending matches Some(c) ==> c.function < self.profile.functions.len()
    }

    pub closed spec fn model(self) -> ReaderModel {
        ReaderModel {
            lines: strings_view(self.lines@),
            next: self.next as nat,
            profile: self.profile@,
            pending: pending_view(self.pending),
        }
    }

    /// A reader over the profile `text`, past its header; fails when the
    /// text has no line or its header names no known format.
    pub fn begin(text: &str) -> (r: Result<LlvmCallCacheProfileReader, String>)
        ensures
            match reader_start(text@) {
                Ok(m) => r is Ok && r->Ok_0.model() == m,
                Err(e) => r is Err && r->Err_0@ == e,
            },
    {
        let mut ls = lines(text);
        if ls.len() == 0 {
            return Err("empty LLVM call-cache profile".to_string());
        }
        let first = ls.remove(0);
        let header = trim(first.as_str());
        let h = header.as_str();
        if !(str_eq(h, "AGAM_LLVM_CALL_CACHE_PROFILE_V1") || str_eq(h, "AGAM_LLVM_CALL_CACHE_PROFILE_V2")
            || str_eq(h, "AGAM_LLVM_CALL_CACHE_PROFILE_V3") || str_eq(
            h,
            "AGAM_LLVM_CALL_CACHE_PROFILE_V4",
        ) || str_eq(h, "AGAM_LLVM_CALL_CACHE_PROFILE_V5") || str_eq(
            h,
            "AGAM_LLVM_CALL_CACHE_PROFILE_V6",
        )) {
            let mut e = String::new();
            e.append("unsupported LLVM call-cache profile header `");
            e.append(h);
            e.append("`");
            return Err(e);
        }
        let ghost rest = strings_view(ls@);
        assert(rest =~= lines_of(text@).drop_first());
        let profile = empty_run_profile();
        Ok(LlvmCallCacheProfileReader { lines: ls, next: 0, profile, pending: None })
    }

    /// Reads on by one line, or asks again for the signature a clone waits
    /// for, or reports that every line has been read. On an error the reader
    /// is left as it was.
    pub fn step(&mut self) -> (r: Result<ProfileStep, String>)
        ensures
            match reader_step(old(self).model()) {
                Ok((m, s)) => r is Ok && final(self).model() == m && r->Ok_0@ == s,
                Err(e) => r is Err && r->Err_0@ == e && final(self).model() == old(self).model(),
            },
    {
        proof {
            use_type_invariant(&*self);
        }
        if let Some(c) = &self.pending {
            return Ok(ProfileStep::NeedsSignature(copy_str(c.signature.as_str())));
        }
        if self.next >= self.lines.len() {
            return Ok(ProfileStep::Finished);
        }
        let line_number: u128 = self.next as u128 + 2;
        let ghost lv = strings_view(self.lines@);
        assert(lv[self.next as int] == self.lines@[self.next as int]@);
        let mut profile = empty_run_profile();
        std::mem::swap(&mut profile, &mut self.profile);
        let outcome = apply_line(&mut profile, line_number, self.lines[self.next].as_str());
        self.profile = profile;
        match outcome {
            Err(e) => Err(e),
            Ok(None) => {
                self.next = self.next + 1;
                Ok(ProfileStep::Advanced)
            },
            Ok(Some(c)) => {
                let signature = copy_str(c.signature.as_str());
                self.pending = Some(c);
                self.next = self.next + 1;
                Ok(ProfileStep::NeedsSignature(signature))
            },
        }
    }

    /// Hands the reader the outcome of reading the waiting clone's
    /// signature: its stable values, or the error met. On an error the
    /// reader is left as it was.
    pub fn resume(&mut self, parsed: Result<Vec<StableScalarValueProfile>, String>) -> (r: Result<(), String>)
        ensures
            match reader_resume(
                old(self).model(),
                match parsed {
                    Ok(v) => Ok(v@),
                    Err(e) => Err(e@),
                },
            ) {
                Ok(m) => r is Ok && final(self).model() == m,
                Err(e) => r is Err && r->Err_0@ == e && final(self).model() == old(self).model(),
            },
    {
        proof {
            use_type_invariant(&*self);
        }
        let mut taken: Option<PendingClone> = None;
        std::mem::swap(&mut taken, &mut self.pending);
        let pending = match taken {
            None => return Ok(()),
            Some(c) => c,
        };
        let mut profile = empty_run_profile();
        std::mem::swap(&mut profile, &mut self.profile);
        let outcome = apply_clone(&mut profile, &pending, parsed);
        self.profile = profile;
        match outcome {
            Ok(()) => Ok(()),
            Err(e) => {
                self.pending = Some(pending);
                Err(e)
            },
        }
    }

    /// The profile read so far.
    pub fn finish(self) -> (r: CallCacheRunProfile)
        ensures
            r@ == self.model().profile,
    {
        self.profile
    }
}

} // verus!

verus! {

/// The saturating sum of `xs`, added from the first.
pub open spec fn saturating_total(xs: Seq<u64>) -> u64
    decreases xs.len(),
{
    if xs.len() == 0 {
        0
    } else {
        saturating_total(xs.drop_last()).saturating_add(xs.last())
    }
}

pub open spec fn calls_of(functions: Seq<FunctionModel>) -> Seq<u64> {
    functions.map_values(|f: FunctionModel| f.calls)
}

pub open spec fn hits_of(functions: Seq<FunctionModel>) -> Seq<u64> {
    functions.map_values(|f: FunctionModel| f.hits)
}

pub open spec fn stores_of(functions: Seq<FunctionModel>) -> Seq<u64> {
    functions.map_values(|f: FunctionModel| f.stores)
}

/// The profile's totals are the saturating sums of its functions' counters.
pub open spec fn totals_consistent(p: RunProfileModel) -> bool {
    &&& p.total_calls == saturating_total(calls_of(p.functions))
    &&& p.total_hits == saturating_total(hits_of(p.functions))
    &&& p.total_stores == saturating_total(stores_of(p.functions))
}

proof fn lemma_update_keeps_counters(functions: Seq<FunctionModel>, i: int, f: FunctionModel)
    requires
        0 <= i < functions.len(),
        f.calls == functions[i].calls,
        f.hits == functions[i].hits,
        f.stores == functions[i].stores,
    ensures
        calls_of(functions.update(i, f)) == calls_of(functions),
        hits_of(functions.update(i, f)) == hits_of(functions),
        stores_of(functions.update(i, f)) == stores_of(functions),
{
    assert(calls_of(functions.update(i, f)) =~= calls_of(functions));
    assert(hits_of(functions.update(i, f)) =~= hits_of(functions));
    assert(stores_of(functions.update(i, f)) =~= stores_of(functions));
}

proof fn lemma_push_adds_counters(functions: Seq<FunctionModel>, f: FunctionModel)
    ensures
        calls_of(functions.push(f)) == calls_of(functions).push(f.calls),
        hits_of(functions.push(f)) == hits_of(functions).push(f.hits),
        stores_of(functions.push(f)) == stores_of(functions).push(f.stores),
{
    assert(calls_of(functions.push(f)) =~= calls_of(functions).push(f.calls));
    assert(hits_of(functions.push(f)) =~= hits_of(functions).push(f.hits));
    assert(stores_of(functions.push(f)) =~= stores_of(functions).push(f.stores));
}

/// No line of a profile breaks the agreement between its totals and its
/// functions' counters.
pub proof fn lemma_line_effect_keeps_totals(p: RunProfileModel, line_number: nat, line: Seq<char>)
    requires
        totals_consistent(p),
    ensures
        line_effect(p, line_number, line) is Ok ==> totals_consistent(
            line_effect(p, line_number, line)->Ok_0.0,
        ),
{
    if line_effect(p, line_number, line) is Ok && trim_ws(line).len() > 0 {
        let parts = split_on(line, '\t');
        let q = line_effect(p, line_number, line)->Ok_0.0;
        if parts[0] == "FN"@ {
            let f = q.functions.last();
            assert(q.functions == p.functions.push(f));
            lemma_push_adds_counters(p.functions, f);
            assert(calls_of(p.functions).push(f.calls).drop_last() =~= calls_of(p.functions));
            assert(hits_of(p.functions).push(f.hits).drop_last() =~= hits_of(p.functions));
            assert(stores_of(p.functions).push(f.stores).drop_last() =~= stores_of(p.functions));
        } else if q != p {
            let i = function_index_of(p.functions, parts[1])->0;
            lemma_function_index_of(p.functions, parts[1]);
            lemma_update_keeps_counters(p.functions, i, q.functions[i]);
            assert(q.functions == p.functions.update(i, q.functions[i]));
        }
    }
}

/// Adding a specialized clone keeps the totals in agreement with the
/// functions' counters.
pub proof fn lemma_clone_effect_keeps_totals(
    p: RunProfileModel,
    pending: PendingCloneModel,
    parsed: Result<Seq<StableScalarValueProfile>, Seq<char>>,
)
    requires
        totals_consistent(p),
        0 <= pending.function < p.functions.len(),
    ensures
        clone_effect(p, pending, parsed) is Ok ==> totals_consistent(
            clone_effect(p, pending, parsed)->Ok_0,
        ),
{
    if clone_effect(p, pending, parsed) is Ok {
        let q = clone_effect(p, pending, parsed)->Ok_0;
        if q != p {
            lemma_update_keeps_counters(p.functions, pending.function, q.functions[pending.function]);
            assert(q.functions == p.functions.update(pending.function, q.functions[pending.function]));
        }
    }
}

} // verus!

verus! {

/// What a reader holds stays coherent: its totals agree with its functions'
/// counters, and a waiting clone belongs to one of its functions.
pub open spec fn reader_coherent(r: ReaderModel) -> bool {
    &&& totals_consistent(r.profile)
    &&& r.pending matches Some(c) ==> 0 <= c.function < r.profile.functions.len()
}

/// Starting, stepping and resuming a reader keep it coherent: at every
/// point the totals of the profile read so far are the saturating sums of
/// its functions' call, hit and store counts.
pub proof fn lemma_reader_coherent(
    text: Seq<char>,
    r: ReaderModel,
    parsed: Result<Seq<StableScalarValueProfile>, Seq<char>>,
)
    ensures
        reader_start(text) is Ok ==> reader_coherent(reader_start(text)->Ok_0),
        reader_coherent(r) && reader_step(r) is Ok ==> reader_coherent(reader_step(r)->Ok_0.0),
        reader_coherent(r) && reader_resume(r, parsed) is Ok ==> reader_coherent(
            reader_resume(r, parsed)->Ok_0,
        ),
{
    assert(calls_of(Seq::<FunctionModel>::empty()) =~= Seq::<u64>::empty());
    assert(hits_of(Seq::<FunctionModel>::empty()) =~= Seq::<u64>::empty());
    assert(stores_of(Seq::<FunctionModel>::empty()) =~= Seq::<u64>::empty());
    if reader_coherent(r) {
        if r.pending is None && r.next < r.lines.len() {
            let line = r.lines[r.next as int];
            lemma_line_effect_keeps_totals(r.profile, r.next + 2, line);
            if line_effect(r.profile, r.next + 2, line) is Ok && trim_ws(line).len() > 0 {
                let parts = split_on(line, '\t');
                lemma_function_index_of(r.profile.functions, parts[1]);
            }
        }
        if let Some(c) = r.pending {
            lemma_clone_effect_keeps_totals(r.profile, c, parsed);
        }
    }
}

} // verus!
