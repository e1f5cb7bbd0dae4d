use mimic::scavenger::{
    is_known_host_base_pkg, soname_matches_package, OrganNeed, ScavengeEnd, ScavengeState, MAX_SCAVENGE_ROUNDS,
};

fn strs(v: &[&str]) -> Vec<String> {
    v.iter().map(|s| s.to_string()).collect()
}

#[test]
fn sonames_match_their_packages() {
    assert!(soname_matches_package("libavcodec.so.62", "libavcodec62"));
    assert!(soname_matches_package("libKF6Archive.so.6", "karchive"));
    assert!(soname_matches_package("libQt6Svg.so.6", "qt6-svg"));
    assert!(soname_matches_package("libkddockwidgets.so", "kddockwidgets"));
    assert!(soname_matches_package("libcdio.so.19", "libcdio19t64"));
    assert!(!soname_matches_package("libfoo.so.1", "bar"));
}

#[test]
fn host_base_packages_are_known() {
    assert!(is_known_host_base_pkg("glibc"));
    assert!(is_known_host_base_pkg("libc6"));
    assert!(!is_known_host_base_pkg("ffmpeg"));
}

#[test]
fn rounds_stop_at_the_limit() {
    let mut st = ScavengeState::new("app", &strs(&["a"]));
    let mut rounds = 0;
    while st.next_round() {
        rounds += 1;
    }
    assert_eq!(rounds, MAX_SCAVENGE_ROUNDS);
}

#[test]
fn pool_fetch_and_fallback() {
    let mut st = ScavengeState::new("app", &strs(&["libfoo1", "glibc", "app", "b", "c", "d", "e", "f", "g"]));
    assert!(st.is_fetched("app"));
    assert_eq!(st.pool_candidate_for("libfoo.so.1"), Some("libfoo1".to_string()));
    assert_eq!(st.accept_online(Some("app".to_string())), None);
    assert_eq!(st.accept_online(Some("zz".to_string())), Some("zz".to_string()));
    let mut queue = Vec::new();
    st.queue_package(&mut queue, "x".to_string());
    st.queue_package(&mut queue, "x".to_string());
    st.queue_package(&mut queue, "app".to_string());
    assert_eq!(queue, strs(&["x"]));
    assert_eq!(st.fallback_packages(), strs(&["libfoo1", "b", "c", "d", "e", "f"]));
    st.mark_fetched("libfoo1");
    st.mark_fetched("libfoo1");
    assert_eq!(st.fetched, strs(&["app", "libfoo1"]));
    // "foo" starts with "f": the next unfetched candidate that may provide it.
    assert_eq!(st.pool_candidate_for("libfoo.so.1"), Some("f".to_string()));
    assert_eq!(st.pool_candidate_for("libzzz.so.1"), None);
    st.record_scavenged("libfoo1".to_string(), &strs(&["b", "h"]));
    assert_eq!(st.scavenged, strs(&["libfoo1"]));
    assert_eq!(st.candidate_pool.last().map(|s| s.as_str()), Some("h"));
    assert_eq!(st.candidate_pool.iter().filter(|p| p.as_str() == "b").count(), 1);
}

fn need(soname: &str, reused: bool, online: Option<&str>) -> OrganNeed {
    OrganNeed { soname: soname.to_string(), reused, online: online.map(|s| s.to_string()) }
}

#[test]
fn a_round_plans_donors_then_records_fetches() {
    let mut st = ScavengeState::new("app", &strs(&["libfoo1", "glibc", "zlib"]));
    let plan = st.plan_round(&[
        need("libfoo.so.1", false, None),
        need("libbar.so.2", false, Some("libbar2")),
        need("libbaz.so.3", true, Some("libbaz3")),
        need("libfoo.so.1", false, None),
        need("libc.so.6", false, Some("app")),
    ]);
    assert_eq!(plan, strs(&["libfoo1", "libbar2"]));
    st.complete_fetch("libfoo1".to_string(), Some(strs(&["zstd", "zlib"])));
    st.complete_fetch("libbar2".to_string(), None);
    assert_eq!(st.fetched, strs(&["app", "libfoo1", "libbar2"]));
    assert_eq!(st.scavenged, strs(&["libfoo1"]));
    assert_eq!(st.candidate_pool, strs(&["libfoo1", "glibc", "zlib", "zstd"]));
    // Nothing attributable: fall back to pool candidates that are neither
    // fetched nor host base packages.
    let fallback = st.plan_round(&[need("libqux.so.1", false, None)]);
    assert_eq!(fallback, strs(&["zlib", "zstd"]));
    st.complete_fetch("zlib".to_string(), Some(Vec::new()));
    st.complete_fetch("zstd".to_string(), Some(Vec::new()));
    // Every library reused and the pool spent: nothing to fetch.
    assert!(st.plan_round(&[need("libqux.so.1", true, None)]).is_empty());
    assert_eq!(st.scavenged, strs(&["libfoo1", "zlib", "zstd"]));
    assert!(!st.scavenged.contains(&"app".to_string()));
}

#[test]
fn rounds_stop_when_satisfied_without_donors_or_without_progress() {
    let mut st = ScavengeState::new("app", &strs(&["libfoo1", "glibc"]));
    assert_eq!(st.plan_or_stop(&[]), Err(ScavengeEnd::Satisfied));
    assert_eq!(st.plan_or_stop(&[need("libqux.so.1", true, None)]), Ok(strs(&["libfoo1"])));
    let plan = st.plan_or_stop(&[need("libfoo.so.1", false, None)]).unwrap();
    assert_eq!(plan, strs(&["libfoo1"]));
    assert!(!st.apply_round(plan, vec![None]));
    assert_eq!(st.fetched, strs(&["app", "libfoo1"]));
    assert!(st.scavenged.is_empty());
    assert_eq!(st.plan_or_stop(&[need("libfoo.so.1", false, None)]), Err(ScavengeEnd::NoDonors));
    let mut st = ScavengeState::new("app", &strs(&["zlib"]));
    let plan = st.plan_or_stop(&[need("libz.so.1", false, None)]).unwrap();
    assert_eq!(plan, strs(&["zlib"]));
    assert!(st.apply_round(plan, vec![Some(strs(&["zstd"]))]));
    assert_eq!(st.scavenged, strs(&["zlib"]));
    assert_eq!(st.candidate_pool, strs(&["zlib", "zstd"]));
}
