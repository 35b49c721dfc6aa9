use keyhunt::settings::{target_of_line, Settings};
use keyhunt::supervisor::ComputeMode;

fn configured(lines: &[&str]) -> Settings {
    let mut s = Settings::defaults(4);
    for line in lines {
        s.apply_line(line);
    }
    s
}

#[test]
fn defaults_match_documented_values() {
    let s = Settings::defaults(4);
    assert_eq!((s.start.as_str(), s.end.as_str(), s.cores), ("1", "1000000", 4));
    assert_eq!(s.mode, "sequential");
    assert_eq!(s.compute_mode, ComputeMode::Cpu);
    assert_eq!((s.gpu_device_id, s.gpu_batch_size), (0, 50000));
    assert_eq!((s.cpu_gpu_ratio_ppm, s.subinterval_ppm), (500000, 100000));
    assert_eq!((s.switch_interval, s.checkpoint_interval), (1000, 10000000));
    assert!(s.stop_on_find && s.smart_jump && !s.wrap_around);
    assert_eq!(s.puzzle_file, "puzzle.txt");
    assert!(s.telegram_bot_token.is_none() && s.telegram_chat_id.is_none());
}

#[test]
fn key_value_lines_are_trimmed() {
    let s = configured(&["  start = 0x20  ", "end=0x3f", "mode= smart", "cores = 12"]);
    assert_eq!((s.start.as_str(), s.end.as_str(), s.mode.as_str(), s.cores), ("0x20", "0x3f", "smart", 12));
}

#[test]
fn comments_blank_and_unknown_lines_change_nothing() {
    let s = configured(&["# start=5", "", "   ", "no equals sign", "bloom_filter=true", "start"]);
    assert_eq!(s.start, "1");
}

#[test]
fn unreadable_numbers_are_ignored() {
    let s = configured(&["cores=many", "switch_interval=-3", "checkpoint_interval=+25", "gpu_batch_size=99999999999999999999"]);
    assert_eq!(s.cores, 4);
    assert_eq!(s.switch_interval, 1000);
    assert_eq!(s.checkpoint_interval, 25);
    assert_eq!(s.gpu_batch_size, 50000);
}

#[test]
fn booleans_read_true_in_any_case() {
    let s = configured(&["stop_on_find=FALSE", "smart_jump=yes", "wrap_around=True"]);
    assert!(!s.stop_on_find && !s.smart_jump && s.wrap_around);
}

#[test]
fn ratios_in_millionths() {
    let s = configured(&["cpu_gpu_ratio=0.25", "subinterval_ratio=.001"]);
    assert_eq!((s.cpu_gpu_ratio_ppm, s.subinterval_ppm), (250000, 1000));
    let s = configured(&["cpu_gpu_ratio=1", "subinterval_ratio=0.12345678"]);
    assert_eq!((s.cpu_gpu_ratio_ppm, s.subinterval_ppm), (1000000, 123456));
    let s = configured(&["cpu_gpu_ratio=abc", "subinterval_ratio=."]);
    assert_eq!((s.cpu_gpu_ratio_ppm, s.subinterval_ppm), (500000, 100000));
}

#[test]
fn compute_mode_line() {
    assert_eq!(configured(&["compute_mode=Mixed"]).compute_mode, ComputeMode::Hybrid);
    assert_eq!(configured(&["compute_mode=quantum"]).compute_mode, ComputeMode::Cpu);
}

#[test]
fn telegram_values_need_text() {
    let s = configured(&["telegram_bot_token=", "telegram_chat_id=42"]);
    assert!(s.telegram_bot_token.is_none());
    assert_eq!(s.telegram_chat_id.as_deref(), Some("42"));
}

#[test]
fn value_keeps_later_equals_signs() {
    let s = configured(&["puzzle_file=a=b.txt"]);
    assert_eq!(s.puzzle_file, "a=b.txt");
}

#[test]
fn target_lines() {
    assert_eq!(target_of_line("  1BgGZ9tcN4rm9KBzDn7KprQz87SZ26SAMH \n").as_deref(), Some("1BgGZ9tcN4rm9KBzDn7KprQz87SZ26SAMH"));
    assert_eq!(target_of_line("# comment"), None);
    assert_eq!(target_of_line("   "), None);
}
