use hp_thermal::log::{
    is_stack_monitor, is_verbose, set_stack_monitor, source_name, stack_committed, stack_depth,
    stack_depth_peak_kb, stack_peak_kb, stack_report, stack_sample, Level, Region, StackMonitor,
};

#[test]
fn sources_are_named_after_the_role() {
    assert_eq!(source_name("svc"), "HpThermal-Service");
    assert_eq!(source_name("tray"), "HpThermal-Tray");
}

#[test]
fn peaks_only_rise() {
    let mut m = StackMonitor::new();
    let _ = set_stack_monitor(&mut m, true);
    assert!(is_stack_monitor(&m));
    let _ = stack_sample(&mut m, "a", 20 * 1024, 3 * 1024);
    let _ = stack_sample(&mut m, "b", 10 * 1024, 5 * 1024);
    assert_eq!(stack_peak_kb(&m), 20);
    assert_eq!(stack_depth_peak_kb(&m), 5);
    assert_eq!(m.samples, 2);
    assert_eq!(m.bins[3], 1);
    assert_eq!(m.bins[2], 1);
}

#[test]
fn the_first_overflow_is_warned_of() {
    let mut m = StackMonitor::new();
    assert!(stack_sample(&mut m, "off", 300 * 1024, 1024).is_empty());
    let _ = set_stack_monitor(&mut m, true);
    let lines = stack_sample(&mut m, "deep", 300 * 1024, 1024);
    assert!(lines.iter().any(|l| l.level == Level::Warning));
    let again = stack_sample(&mut m, "deep", 300 * 1024, 1024);
    assert!(!again.iter().any(|l| l.level == Level::Warning));
    assert_eq!(m.bins[7], 2);
}

#[test]
fn depth_is_counted_from_the_top() {
    assert_eq!(stack_depth(10_000, 4_000), 6_000);
    assert_eq!(stack_depth(4_000, 10_000), 0);
}

#[test]
fn committed_regions_are_counted() {
    let regions = [
        Region { size: 4096, committed: false },
        Region { size: 8192, committed: true },
        Region { size: 4096, committed: true },
    ];
    assert_eq!(stack_committed(0, 16384, &regions), 12288);
}

#[test]
fn reports_name_the_peaks() {
    let mut m = StackMonitor::new();
    let _ = set_stack_monitor(&mut m, true);
    let _ = stack_sample(&mut m, "a", 20 * 1024, 3 * 1024);
    assert!(stack_report(&m).starts_with(
        "stack report: peak_depth=3 KB peak_committed=20 KB samples=1 |"
    ));
    assert!(!stack_report(&m).contains('\n'));
    assert_eq!(is_verbose(&m), m.verbose);
}
