use amdgpu_sysfs::gpu_handle::overdrive::ClocksTableGen;
use lact_schema::clocks::{ClockControl, ClocksInfo};
use indexmap::IndexMap;
use lact_schema::clocks::{
    ClocksDelta, ClocksTable, IntelClocksTable, NvidiaClockOffset, NvidiaClocksDelta, NvidiaClocksTable,
};
use lact_schema::ControlError;

fn nvidia_table() -> NvidiaClocksTable {
    let mut gpu = IndexMap::new();
    gpu.insert(0, NvidiaClockOffset { current: 0, min: -200, max: 300 });
    gpu.insert(1, NvidiaClockOffset { current: 50, min: -100, max: 100 });
    let mut mem = IndexMap::new();
    mem.insert(0, NvidiaClockOffset { current: 0, min: -500, max: 1000 });
    NvidiaClocksTable {
        gpu_offsets: gpu,
        mem_offsets: mem,
        gpu_locked_clocks: None,
        vram_locked_clocks: None,
        gpu_clock_range: Some((300, 2100)),
        vram_clock_range: None,
    }
}

fn delta(gpu: Vec<(u32, i32)>, locked: Option<(u32, u32)>) -> NvidiaClocksDelta {
    NvidiaClocksDelta { gpu_offsets: gpu, mem_offsets: vec![], gpu_locked_clocks: locked, vram_locked_clocks: None }
}

#[test]
fn nvidia_offset_in_range_is_applied() {
    let mut t = nvidia_table();
    assert_eq!(t.apply_delta(&delta(vec![(0, 150), (1, -100)], Some((500, 1800)))), Ok(()));
    assert_eq!(t.gpu_offsets[&0].current, 150);
    assert_eq!(t.gpu_offsets[&1].current, -100);
    assert_eq!(t.gpu_offsets[&1].min, -100);
    assert_eq!(t.gpu_locked_clocks, Some((500, 1800)));
    for (_, o) in &t.gpu_offsets {
        assert!(o.min <= o.current && o.current <= o.max);
    }
}

#[test]
fn later_value_for_a_point_wins() {
    let mut t = nvidia_table();
    assert_eq!(t.apply_delta(&delta(vec![(0, 100), (0, 200)], None)), Ok(()));
    assert_eq!(t.gpu_offsets[&0].current, 200);
}

#[test]
fn nvidia_offset_out_of_range_is_rejected() {
    let mut t = nvidia_table();
    assert_eq!(t.apply_delta(&delta(vec![(0, 150), (1, 101)], None)), Err(ControlError::OutOfRange));
    assert_eq!(t.gpu_offsets[&0].current, 0);
}

#[test]
fn unknown_point_is_rejected() {
    let mut t = nvidia_table();
    assert_eq!(t.apply_delta(&delta(vec![(7, 0)], None)), Err(ControlError::OutOfRange));
}

#[test]
fn locked_range_outside_allowed_is_rejected() {
    let mut t = nvidia_table();
    assert_eq!(t.apply_delta(&delta(vec![], Some((200, 1000)))), Err(ControlError::OutOfRange));
    assert_eq!(t.apply_delta(&delta(vec![], Some((1000, 900)))), Err(ControlError::OutOfRange));
    assert_eq!(t.gpu_locked_clocks, None);
}

#[test]
fn mismatched_vendor_fails() {
    let mut t = ClocksTable::Nvidia(nvidia_table());
    assert_eq!(t.apply(ClocksDelta::Intel((100, 200))), Err(ControlError::MismatchedVendor));
    let mut i = ClocksTable::Intel(IntelClocksTable { gt_freq: None, rpn_freq: None, rpe_freq: None, rp0_freq: None });
    assert_eq!(i.apply(ClocksDelta::Nvidia(delta(vec![], None))), Err(ControlError::MismatchedVendor));
}

#[test]
fn intel_range_is_checked() {
    let table = IntelClocksTable { gt_freq: Some((300, 1200)), rpn_freq: Some(300), rpe_freq: Some(700), rp0_freq: Some(2000) };
    let mut t = ClocksTable::Intel(table);
    assert_eq!(t.apply(ClocksDelta::Intel((200, 1000))), Err(ControlError::OutOfRange));
    assert_eq!(t.apply(ClocksDelta::Intel((400, 2100))), Err(ControlError::OutOfRange));
    assert_eq!(t.apply(ClocksDelta::Intel((900, 800))), Err(ControlError::OutOfRange));
    assert_eq!(t.apply(ClocksDelta::Intel((400, 1900))), Ok(()));
    match t {
        ClocksTable::Intel(i) => assert_eq!(i.gt_freq, Some((400, 1900))),
        _ => panic!("vendor changed"),
    }
}

#[test]
fn nvidia_apply_through_table() {
    let mut t = ClocksTable::Nvidia(nvidia_table());
    assert_eq!(t.apply(ClocksDelta::Nvidia(delta(vec![(1, 99)], None))), Ok(()));
    match t {
        ClocksTable::Nvidia(n) => assert_eq!(n.gpu_offsets[&1].current, 99),
        _ => panic!("vendor changed"),
    }
}

#[test]
fn amd_maxima_come_from_the_table() {
    let text = "OD_SCLK:\n0: 500Mhz\n1: 2314Mhz\nOD_MCLK:\n0: 97Mhz\n1: 1000MHz\nOD_VDDGFX_OFFSET:\n0mV\nOD_RANGE:\nSCLK:     500Mhz       2600Mhz\nMCLK:     674Mhz       1075Mhz\n";
    let table: ClocksTableGen = text.parse().unwrap();
    let info = ClocksInfo::from_amd(table);
    assert_eq!(info.max_sclk, Some(2314));
    assert_eq!(info.max_mclk, Some(1000));
    assert!(matches!(info.table, Some(ClocksTable::Amd(_))));
    let again: ClocksTableGen = text.parse().unwrap();
    let converted: ClocksInfo = again.into();
    assert_eq!(converted.max_sclk, Some(2314));
}

fn nvidia_info() -> ClocksInfo {
    ClocksInfo { max_sclk: None, max_mclk: None, max_voltage: None, table: Some(ClocksTable::Nvidia(nvidia_table())) }
}

#[test]
fn apply_then_read_stays_in_range() {
    let mut c = ClockControl::new();
    assert!(c.read().is_none());
    c.refresh(nvidia_info());
    assert!(c.read().is_some());
    let written = c.apply(ClocksDelta::Nvidia(delta(vec![(1, 80)], None))).unwrap();
    assert!(c.read().is_none());
    c.refresh(ClocksInfo { max_sclk: None, max_mclk: None, max_voltage: None, table: Some(written) });
    match &c.read().unwrap().table {
        Some(ClocksTable::Nvidia(n)) => {
            let o = &n.gpu_offsets[&1];
            assert_eq!(o.current, 80);
            assert!(o.min <= o.current && o.current <= o.max);
        },
        _ => panic!("vendor changed"),
    }
}

#[test]
fn rejected_apply_keeps_reading() {
    let mut c = ClockControl::new();
    assert_eq!(c.apply(ClocksDelta::Intel((1, 2))).err(), Some(ControlError::MismatchedVendor));
    c.refresh(nvidia_info());
    assert_eq!(c.apply(ClocksDelta::Nvidia(delta(vec![(1, 500)], None))).err(), Some(ControlError::OutOfRange));
    assert!(c.read().is_some());
    assert_eq!(c.apply(ClocksDelta::Intel((1, 2))).err(), Some(ControlError::MismatchedVendor));
    assert!(c.read().is_some());
}

#[test]
fn edited_points_stay_within_bounds() {
    let mut t = nvidia_table();
    assert_eq!(t.apply_delta(&delta(vec![(0, -200), (1, 100)], None)), Ok(()));
    assert_eq!(t.gpu_offsets[&0].current, -200);
    assert_eq!(t.gpu_offsets[&1].current, 100);
    for (_, o) in &t.gpu_offsets {
        assert!(o.min <= o.current && o.current <= o.max);
    }
}
