use agam::driver::profile::{
    CallCacheRunProfile, LlvmCallCacheProfileReader, ProfileStep, StableScalarValueProfile,
};

/// Stable values of a specialization signature `index=bits,...`, as the
/// profile crate reads them.
fn signature_values(signature: &str) -> Result<Vec<StableScalarValueProfile>, String> {
    let mut values = Vec::new();
    for part in signature.split(',') {
        let mut pieces = part.split('=');
        let index = pieces.next().and_then(|p| p.parse::<usize>().ok());
        let bits = pieces.next().and_then(|p| p.parse::<u64>().ok());
        match (index, bits) {
            (Some(index), Some(raw_bits)) => values.push(StableScalarValueProfile { index, raw_bits, matches: 0 }),
            _ => return Err(format!("malformed signature `{signature}`")),
        }
    }
    Ok(values)
}

fn read_profile(text: &str) -> Result<CallCacheRunProfile, String> {
    let mut reader = LlvmCallCacheProfileReader::begin(text)?;
    loop {
        match reader.step()? {
            ProfileStep::Finished => break,
            ProfileStep::Advanced => {}
            ProfileStep::NeedsSignature(signature) => reader.resume(signature_values(&signature))?,
        }
    }
    Ok(reader.finish())
}

#[test]
fn test_parse_llvm_call_cache_run_profile() {
    let profile = read_profile(
        "AGAM_LLVM_CALL_CACHE_PROFILE_V6\nFN\thot\t32\t24\t2\t1\t3\t24\nSP\thot\t12\t4\nSC\thot\t0=33\t12\t0\nSC\thot\t0=33,1=7\t0\t4\nSV\thot\t0\t33\t24\nRD\thot\t1\t3\t24\nFN\twarm\t8\t0\t0\t0\t0\t0\nSP\twarm\t0\t0\nSV\twarm\t0\t7\t0\nRD\twarm\t0\t0\t0\n",
    )
    .expect("profile should parse");

    assert_eq!(profile.backend, "llvm");
    assert_eq!(profile.total_calls, 40);
    assert_eq!(profile.total_hits, 24);
    assert_eq!(profile.total_stores, 2);
    assert_eq!(profile.functions.len(), 2);
    assert_eq!(profile.functions[0].name, "hot");
    assert_eq!(profile.functions[0].entries, 1);
    assert_eq!(profile.functions[0].profile.unique_keys, 3);
    assert_eq!(profile.functions[0].profile.hottest_key_hits, 24);
    assert_eq!(profile.functions[0].profile.stable_values.len(), 1);
    assert_eq!(profile.functions[0].profile.stable_values[0].raw_bits, 33);
    assert_eq!(profile.functions[0].profile.avg_reuse_distance, Some(1));
    assert_eq!(profile.functions[0].profile.max_reuse_distance, Some(3));
    assert_eq!(profile.functions[0].profile.specialization_guard_hits, 12);
    assert_eq!(profile.functions[0].profile.specialization_guard_fallbacks, 4);
    assert_eq!(profile.functions[0].profile.specialization_profiles.len(), 2);
    assert_eq!(profile.functions[0].profile.specialization_profiles[0].stable_values[0].index, 0);
    assert_eq!(profile.functions[0].profile.specialization_profiles[0].stable_values[0].raw_bits, 33);
}

#[test]
fn test_parse_llvm_call_cache_run_profile_v4_compatibility() {
    let profile = read_profile(
        "AGAM_LLVM_CALL_CACHE_PROFILE_V4\nFN\thot\t32\t24\t2\t1\nSP\thot\t12\t4\nSV\thot\t0\t33\t24\nRD\thot\t1\t3\t24\n",
    )
    .expect("legacy profile should parse");

    assert_eq!(profile.functions.len(), 1);
    assert_eq!(profile.functions[0].profile.unique_keys, 2);
    assert_eq!(profile.functions[0].profile.hottest_key_hits, 0);
    assert_eq!(profile.functions[0].profile.avg_reuse_distance, Some(1));
}

#[test]
fn profile_reader_rejects_empty_text_and_unknown_headers() {
    assert_eq!(read_profile("").unwrap_err(), "empty LLVM call-cache profile");
    assert_eq!(
        read_profile("  AGAM_LLVM_CALL_CACHE_PROFILE_V9  \nFN\tf\t1\t1\t1\t1\n").unwrap_err(),
        "unsupported LLVM call-cache profile header `AGAM_LLVM_CALL_CACHE_PROFILE_V9`"
    );
}

#[test]
fn profile_reader_reports_malformed_lines_with_their_line_numbers() {
    assert_eq!(
        read_profile("AGAM_LLVM_CALL_CACHE_PROFILE_V1\n\nXX\tf\n").unwrap_err(),
        "invalid LLVM call-cache profile line 3: `XX\tf`"
    );
    assert_eq!(
        read_profile("AGAM_LLVM_CALL_CACHE_PROFILE_V1\nFN\tf\t1\t2\n").unwrap_err(),
        "invalid LLVM call-cache profile line 2: `FN\tf\t1\t2`"
    );
    assert_eq!(
        read_profile("AGAM_LLVM_CALL_CACHE_PROFILE_V1\nSV\tmissing\t0\t1\t1\n").unwrap_err(),
        "LLVM call-cache stable-value line 2 references unknown function `missing`"
    );
    assert_eq!(
        read_profile("AGAM_LLVM_CALL_CACHE_PROFILE_V1\nRD\tf\t0\t1\n").unwrap_err(),
        "invalid LLVM call-cache reuse-distance line 2: `RD\tf\t0\t1`"
    );
    let bad_count = read_profile("AGAM_LLVM_CALL_CACHE_PROFILE_V1\nFN\tf\tmany\t2\t3\t4\n").unwrap_err();
    assert!(bad_count.starts_with("invalid LLVM call-cache call count on line 2: "));
}

#[test]
fn profile_reader_reports_signature_errors_before_counts() {
    let error = read_profile("AGAM_LLVM_CALL_CACHE_PROFILE_V6\nFN\tf\t1\t1\t1\t1\nSC\tf\tbad\tx\ty\n").unwrap_err();
    assert_eq!(
        error,
        "invalid LLVM call-cache specialization-clone signature on line 3: malformed signature `bad`"
    );
    let counts = read_profile("AGAM_LLVM_CALL_CACHE_PROFILE_V6\nFN\tf\t1\t1\t1\t1\nSC\tf\t0=1\tx\t0\n").unwrap_err();
    assert!(counts.starts_with("invalid LLVM call-cache specialization-clone hit count on line 3: "));
}

#[test]
fn profile_totals_saturate_and_accept_crlf_lines() {
    let profile = read_profile(
        "AGAM_LLVM_CALL_CACHE_PROFILE_V2\r\nFN\ta\t18446744073709551615\t1\t5\t2\r\nFN\tb\t10\t2\t3\t9\r\n",
    )
    .expect("profile");
    assert_eq!(profile.total_calls, u64::MAX);
    assert_eq!(profile.total_hits, 3);
    assert_eq!(profile.total_stores, 8);
    assert_eq!(profile.functions[0].profile.unique_keys, 5);
    assert_eq!(profile.functions[1].profile.unique_keys, 9);
}

#[test]
fn profile_records_apply_to_the_latest_function_of_a_name() {
    let profile = read_profile(
        "AGAM_LLVM_CALL_CACHE_PROFILE_V3\nFN\tf\t1\t0\t0\t0\nFN\tf\t2\t0\t0\t0\nSP\tf\t5\t6\n",
    )
    .expect("profile");
    assert_eq!(profile.functions[0].profile.specialization_guard_hits, 0);
    assert_eq!(profile.functions[1].profile.specialization_guard_hits, 5);
    assert_eq!(profile.functions[1].profile.specialization_guard_fallbacks, 6);
}

#[test]
fn profile_reader_waits_for_a_signature() {
    let mut reader =
        LlvmCallCacheProfileReader::begin("AGAM_LLVM_CALL_CACHE_PROFILE_V5\nFN\tf\t1\t1\t1\t1\nSC\tf\t0=9\t1\t0\n")
            .expect("reader");
    assert!(matches!(reader.step(), Ok(ProfileStep::Advanced)));
    match reader.step() {
        Ok(ProfileStep::NeedsSignature(s)) => assert_eq!(s, "0=9"),
        _ => panic!("expected a signature request"),
    }
    match reader.step() {
        Ok(ProfileStep::NeedsSignature(s)) => assert_eq!(s, "0=9"),
        _ => panic!("the request should repeat until answered"),
    }
    reader
        .resume(Ok(vec![StableScalarValueProfile { index: 0, raw_bits: 9, matches: 1 }]))
        .expect("resume");
    assert!(matches!(reader.step(), Ok(ProfileStep::Finished)));
    let profile = reader.finish();
    assert_eq!(profile.functions[0].profile.specialization_profiles.len(), 1);
    assert_eq!(profile.functions[0].profile.specialization_profiles[0].guard_hits, 1);
}
