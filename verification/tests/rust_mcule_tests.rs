use vasea::{Karlloc, RustCrateType, RustMcule, power_of_two};

#[test]
fn rust_mcule_defaults_and_setters() {
    let mut r = RustMcule::new("app", ".");
    assert_eq!(r.crate_type(), RustCrateType::Lib);
    assert_eq!(r.root(), ".");
    assert_eq!(r.src(), "src");
    assert_eq!(r.main_file(), "main.rs");
    r.make_bin().set_root("proj").set_src("source").set_main("lib.rs");
    assert_eq!(r.crate_type(), RustCrateType::Bin);
    assert_eq!(r.root(), "proj");
    assert_eq!(r.src(), "source");
    assert_eq!(r.main_file(), "lib.rs");
    r.make_lib();
    assert_eq!(r.crate_type(), RustCrateType::Lib);
    r.add_pre_step(&["mkdir", "out"]).add_pre_step(&["touch", "x"]);
    assert_eq!(r.pre_steps().len(), 2);
    assert_eq!(r.pre_steps()[0], vec!["mkdir".to_string(), "out".to_string()]);
    let f = r.finish();
    assert_eq!(f.outpath, "");
    assert_eq!(f.name, "");
}

#[test]
fn mapping_size_rounds_to_pages() {
    assert_eq!(Karlloc::mapping_size(10, 8, 4096), Some(4096));
    assert_eq!(Karlloc::mapping_size(4096, 8, 4096), Some(4096));
    assert_eq!(Karlloc::mapping_size(4097, 1, 4096), Some(8192));
    assert_eq!(Karlloc::mapping_size(0, 1, 4096), Some(0));
    assert_eq!(Karlloc::mapping_size(100, 8192, 4096), Some(8192));
    assert_eq!(Karlloc::mapping_size(100, 16, 0), Some(112));
}

#[test]
fn mapping_size_refusals() {
    // Page size that is not a power of two.
    assert_eq!(Karlloc::mapping_size(10, 8, 3000), None);
    // A failed page-size query reads as all ones.
    assert_eq!(Karlloc::mapping_size(10, 8, usize::MAX), None);
    // Rounding would pass isize::MAX.
    assert_eq!(Karlloc::mapping_size(isize::MAX as usize, 1, 4096), None);
    assert_eq!(Karlloc::mapping_size(isize::MAX as usize - 4095, 1, 4096), Some(isize::MAX as usize - 4095));
}

#[test]
fn powers_of_two() {
    assert!(power_of_two(1));
    assert!(power_of_two(4096));
    assert!(!power_of_two(0));
    assert!(!power_of_two(12));
}
