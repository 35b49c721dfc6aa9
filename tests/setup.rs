use keyhunt::partition::ConfigError;
use keyhunt::supervisor::{
    parse_big_int, parse_range, parse_search_mode, plan_lanes, worker_count, BabyStepGiantStep,
    ComputeMode, GPUInfo, GPUWorker, LanePlan,
};
use keyhunt::worker::SearchMode;
use keyhunt::bignum::Key;

#[test]
fn compute_mode_ignores_case() {
    assert_eq!(ComputeMode::from_str("CPU"), Ok(ComputeMode::Cpu));
    assert_eq!(ComputeMode::from_str("gpu"), Ok(ComputeMode::Gpu));
    assert_eq!(ComputeMode::from_str("Hybrid"), Ok(ComputeMode::Hybrid));
    assert_eq!(ComputeMode::from_str("cpu+gpu"), Ok(ComputeMode::Hybrid));
    assert_eq!(ComputeMode::from_str("MIXED"), Ok(ComputeMode::Hybrid));
    assert_eq!(ComputeMode::from_str("tpu"), Err(ConfigError::UnknownComputeMode));
}

#[test]
fn search_mode_names() {
    assert_eq!(parse_search_mode("sequential"), Ok(SearchMode::Sequential));
    assert_eq!(parse_search_mode("random"), Ok(SearchMode::Random));
    assert_eq!(parse_search_mode("smart"), Ok(SearchMode::Smart));
    assert_eq!(parse_search_mode("kangaroo"), Ok(SearchMode::Kangaroo));
    assert_eq!(parse_search_mode("Smart"), Err(ConfigError::UnknownSearchMode));
}

#[test]
fn bounds_in_hex_and_decimal() {
    assert_eq!(parse_big_int("0x10").unwrap().to_u64(), Some(16));
    assert_eq!(parse_big_int("0xfF").unwrap().to_u64(), Some(255));
    assert_eq!(parse_big_int("123").unwrap().to_u64(), Some(123));
    assert!(matches!(parse_big_int("0xZZ"), Err(ConfigError::UnparsableBound)));
    assert!(matches!(parse_big_int(""), Err(ConfigError::UnparsableBound)));
    assert!(matches!(parse_big_int("0x"), Err(ConfigError::UnparsableBound)));
    assert!(matches!(parse_big_int("12a"), Err(ConfigError::UnparsableBound)));
}

#[test]
fn range_must_not_be_inverted() {
    let (s, e) = parse_range("1", "0x64").unwrap();
    assert_eq!((s.to_u64(), e.to_u64()), (Some(1), Some(100)));
    assert!(matches!(parse_range("5", "4"), Err(ConfigError::InvertedRange)));
    assert!(matches!(parse_range("x", "4"), Err(ConfigError::UnparsableBound)));
    assert!(parse_range("4", "4").is_ok());
}

#[test]
fn lane_plans() {
    assert_eq!(plan_lanes(ComputeMode::Cpu, 8, 500_000, true), Ok(LanePlan { direct: 8, batched: 0 }));
    assert_eq!(plan_lanes(ComputeMode::Gpu, 8, 500_000, true), Ok(LanePlan { direct: 0, batched: 1 }));
    assert_eq!(plan_lanes(ComputeMode::Hybrid, 4, 500_000, true), Ok(LanePlan { direct: 2, batched: 2 }));
    assert_eq!(plan_lanes(ComputeMode::Hybrid, 4, 300_000, true), Ok(LanePlan { direct: 2, batched: 2 }));
    assert_eq!(plan_lanes(ComputeMode::Hybrid, 4, 1_000_000, true), Ok(LanePlan { direct: 4, batched: 0 }));
    assert_eq!(plan_lanes(ComputeMode::Hybrid, 4, 0, true), Ok(LanePlan { direct: 0, batched: 4 }));
    assert_eq!(plan_lanes(ComputeMode::Hybrid, 4, 500_000, false), Ok(LanePlan { direct: 4, batched: 0 }));
    assert_eq!(plan_lanes(ComputeMode::Gpu, 3, 500_000, false), Ok(LanePlan { direct: 3, batched: 0 }));
    assert_eq!(plan_lanes(ComputeMode::Hybrid, 4, 1_500_000, true), Err(ConfigError::RatioAboveOne));
}

#[test]
fn worker_count_defaults_to_cores() {
    assert_eq!(worker_count(6), 6);
    assert!(worker_count(0) >= 1);
}

#[test]
fn gpu_info_from_probes() {
    let none = GPUInfo::detect(false, false);
    assert!(!none.available);
    assert_eq!(none.device_count, 0);
    assert!(none.device_names.is_empty());
    let both = GPUInfo::detect(true, true);
    assert!(both.available && both.cuda_available && both.opencl_available);
    assert_eq!(both.device_count, 2);
    assert_eq!(both.device_names, vec!["NVIDIA GPU (CUDA)".to_string(), "OpenCL Device".to_string()]);
    assert_eq!(GPUInfo::get_cuda_device_count(true), 1);
    assert_eq!(GPUInfo::get_opencl_device_count(false), 0);
    assert!(GPUInfo::get_opencl_device_names(false).is_empty());
    assert_eq!(GPUInfo::get_cuda_device_names(false).len(), 0);
}

#[test]
fn gpu_worker_skips_invalid_keys_and_limits_batch() {
    let w = GPUWorker::new(3, 2);
    assert_eq!((w.device_id, w.batch_size), (3, 2));
    let keys = vec![Key::from_u64(0), Key::from_u64(1), Key::from_u64(2)];
    let r = w.process_key_batch(&keys);
    assert_eq!(r.len(), 1);
    assert_eq!(r[0].0.to_u64(), Some(1));
    assert_eq!(r[0].1[0], "1BgGZ9tcN4rm9KBzDn7KprQz87SZ26SAMH");
    assert_eq!(r[0].1[1], "1EHNa6Q4Jz2uvNExL497mE43ikXhwF6kZm");
    let _ = BabyStepGiantStep::new();
}
