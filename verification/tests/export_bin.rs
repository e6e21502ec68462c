use pmu_programmer::pmu::chip::ChipModel;
use pmu_programmer::pmu::commands::firmware::build_export_bin;

#[test]
fn export_bin_uses_ui_value_without_device() {
    let bin = build_export_bin(ChipModel::Ek86317a, &[(0x00, 0x12)]).unwrap();
    assert_eq!(bin[0x00], 0x12);
}

#[test]
fn export_bin_keeps_defaults_for_missing_ui_values() {
    let bin = build_export_bin(ChipModel::Ek86317a, &[]).unwrap();
    assert_eq!(bin[0x0a], 0x3f);
}
