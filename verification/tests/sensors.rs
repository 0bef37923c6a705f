use mora_perf::cpu::{avg_util, cpu_utils_by_core, parse_proc_stat_percpu, CpuStatSample};
use mora_perf::gpu::{
    parse_u8_token, read_gpu_util_any, read_gpu_util_from_busy_percentage,
    read_gpu_util_from_gpubusy_ratio,
};
use mora_perf::text::{read_i32, read_u64};
use mora_perf::thermal::{read_avg_temp_mc, read_soc_temp_mc};

#[test]
fn read_u64_plain_and_trimmed() {
    assert_eq!(read_u64("42"), Some(42));
    assert_eq!(read_u64("  1500000\n"), Some(1_500_000));
    assert_eq!(read_u64("+7"), Some(7));
    assert_eq!(read_u64(""), None);
    assert_eq!(read_u64("  \n"), None);
    assert_eq!(read_u64("12a"), None);
    assert_eq!(read_u64("-3"), None);
    assert_eq!(read_u64("18446744073709551615"), Some(u64::MAX));
    assert_eq!(read_u64("18446744073709551616"), None);
}

#[test]
fn read_i32_signs_and_limits() {
    assert_eq!(read_i32("41000\n"), Some(41_000));
    assert_eq!(read_i32(" -15000 "), Some(-15_000));
    assert_eq!(read_i32("+3"), Some(3));
    assert_eq!(read_i32("2147483647"), Some(i32::MAX));
    assert_eq!(read_i32("2147483648"), None);
    assert_eq!(read_i32("-2147483648"), Some(i32::MIN));
    assert_eq!(read_i32("-2147483649"), None);
    assert_eq!(read_i32("x"), None);
    assert_eq!(read_i32("-"), None);
}

#[test]
fn proc_stat_parses_per_core_lines() {
    let content = "cpu  100 0 100 800 0 0 0 0\n\
                   cpu0 10 0 10 70 10 0 0 0\n\
                   cpu1 20 0 20 140 20 0 0 0\n\
                   intr 12345\n";
    let v = parse_proc_stat_percpu(content).unwrap();
    // (idle + iowait, sum of the eight counters)
    assert_eq!(v, vec![(80, 100), (160, 200)]);
}

#[test]
fn proc_stat_skips_short_and_aggregate_lines() {
    let content = "cpu  1 2 3 4\ncpu0 1 2 3\ncpu1 5 6 7 8\n";
    let v = parse_proc_stat_percpu(content).unwrap();
    // cpu0 has only three numeric fields and is skipped; its slot stays zero.
    assert_eq!(v, vec![(0, 0), (8, 26)]);
}

#[test]
fn proc_stat_fails_softly() {
    assert_eq!(parse_proc_stat_percpu(""), None);
    assert_eq!(parse_proc_stat_percpu("intr 1 2 3\n"), None);
}

#[test]
fn first_sample_is_all_zeros() {
    let mut prev: Option<CpuStatSample> = None;
    let utils = cpu_utils_by_core(&mut prev, vec![(80, 100), (160, 200)], 0);
    assert_eq!(utils, vec![0, 0]);
    assert!(prev.is_some());
}

#[test]
fn utilization_formula_between_snapshots() {
    let mut prev: Option<CpuStatSample> = None;
    cpu_utils_by_core(&mut prev, vec![(100, 200)], 0);
    // idle delta 50, total delta 200: busy 150 of 200 is 75%.
    let utils = cpu_utils_by_core(&mut prev, vec![(150, 400)], 1_000);
    assert_eq!(utils, vec![75]);
    // No total advance: 0%.
    let utils = cpu_utils_by_core(&mut prev, vec![(150, 400)], 2_000);
    assert_eq!(utils, vec![0]);
}

#[test]
fn avg_util_over_cluster() {
    let utils = vec![10u8, 20, 30, 40];
    assert_eq!(avg_util(&utils, &vec![0, 1]), 15);
    assert_eq!(avg_util(&utils, &vec![2, 3]), 35);
    // Absent cores are ignored; an all-absent cluster reads 0.
    assert_eq!(avg_util(&utils, &vec![3, 9]), 40);
    assert_eq!(avg_util(&utils, &vec![9]), 0);
    assert_eq!(avg_util(&utils, &vec![]), 0);
}

#[test]
fn gpu_percentage_node() {
    assert_eq!(parse_u8_token("45"), Some(45));
    assert_eq!(parse_u8_token(" 45% extra"), Some(45));
    assert_eq!(parse_u8_token("45%%"), Some(45));
    assert_eq!(parse_u8_token(""), None);
    assert_eq!(parse_u8_token("abc"), None);
    assert_eq!(parse_u8_token("300"), None);
    assert_eq!(read_gpu_util_from_busy_percentage("250"), Some(100));
}

#[test]
fn gpu_ratio_node() {
    assert_eq!(read_gpu_util_from_gpubusy_ratio("50 100"), Some(50));
    assert_eq!(read_gpu_util_from_gpubusy_ratio("300 100"), Some(100));
    assert_eq!(read_gpu_util_from_gpubusy_ratio("0 0"), Some(0));
    assert_eq!(read_gpu_util_from_gpubusy_ratio("50"), None);
    assert_eq!(read_gpu_util_from_gpubusy_ratio("a b"), None);
}

#[test]
fn gpu_any_prefers_nonzero_percentage() {
    assert_eq!(read_gpu_util_any(Some("45"), Some("10 100")), 45);
    // A zero percentage is cross-checked against the ratio node.
    assert_eq!(read_gpu_util_any(Some("0"), Some("30 100")), 30);
    assert_eq!(read_gpu_util_any(Some("0"), Some("garbage")), 0);
    assert_eq!(read_gpu_util_any(Some("bad"), Some("25 100")), 25);
    assert_eq!(read_gpu_util_any(None, Some("25 100")), 25);
    assert_eq!(read_gpu_util_any(None, None), 0);
}

#[test]
fn temperature_average_ignores_unreadable() {
    assert_eq!(
        read_avg_temp_mc(&vec![Some(40_000), None, Some(42_000)]),
        Some(41_000)
    );
    assert_eq!(read_avg_temp_mc(&vec![None, None]), None);
    assert_eq!(read_avg_temp_mc(&vec![]), None);
    // Truncation toward zero, as integer division does.
    assert_eq!(read_avg_temp_mc(&vec![Some(-5), Some(2)]), Some(-1));
}

#[test]
fn composite_control_temperature() {
    assert_eq!(read_soc_temp_mc(Some(40_000), Some(45_000)), Some(45_000));
    assert_eq!(read_soc_temp_mc(Some(50_000), Some(45_000)), Some(50_000));
    assert_eq!(read_soc_temp_mc(Some(40_000), None), Some(40_000));
    assert_eq!(read_soc_temp_mc(None, Some(45_000)), Some(45_000));
    assert_eq!(read_soc_temp_mc(None, None), None);
}
