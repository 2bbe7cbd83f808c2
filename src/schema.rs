//! Plain descriptions of devices, their statistics and power states.
use vstd::prelude::*;
use amdgpu_sysfs::gpu_handle::fan_control::FanInfo;
use amdgpu_sysfs::gpu_handle::PerformanceLevel;
use crate::fan::{FanControlMode, FanCurve};
use indexmap::IndexMap;
use std::collections::BTreeMap;

verus! {

/// Answer to a liveness check.
#[derive(Clone, Copy, Debug)]
pub struct Pong;

/// Facts about the running service.
#[derive(Clone, Debug)]
pub struct SystemInfo {
    pub version: String,
    pub commit: Option<String>,
    pub profile: String,
    pub kernel_version: String,
    pub amdgpu_overdrive_enabled: Option<bool>,
}

/// One device of the device list.
#[derive(Clone, Debug)]
pub struct DeviceListEntry {
    pub id: String,
    pub name: Option<String>,
}

impl DeviceListEntry {
    /// The name to show: the device's name, or its id where it has none.
    pub fn display_name(&self) -> (r: String)
        ensures
            r@ == match self.name {
                Some(n) => n@,
                None => self.id@,
            },
    {
        match &self.name {
            Some(n) => n.clone(),
            None => self.id.clone(),
        }
    }
}

/// PCI identity of one function.
#[derive(Clone, Debug)]
pub struct PciInfo {
    pub vendor_id: String,
    pub vendor: Option<String>,
    pub model_id: String,
    pub model: Option<String>,
}

/// PCI identity of a card: the chip and the board.
#[derive(Clone, Debug)]
pub struct GpuPciInfo {
    pub device_pci_info: PciInfo,
    pub subsystem_pci_info: PciInfo,
}

/// Render output units of an Nvidia chip.
#[derive(Clone, Copy, Debug)]
pub struct NvidiaRopInfo {
    pub unit_count: u32,
    pub operations_factor: u32,
    pub operations_count: u32,
}

/// Execution resources of an Intel chip.
#[derive(Clone, Copy, Debug, Default)]
pub struct IntelDrmInfo {
    pub execution_units: Option<u32>,
    pub subslices: Option<u32>,
}

/// Memory visible to the processor.
#[derive(Clone, Copy, Debug)]
pub struct DrmMemoryInfo {
    pub cpu_accessible_used: u64,
    pub cpu_accessible_total: u64,
    pub resizeable_bar: Option<bool>,
}

/// What the kernel driver reports about a chip.
#[derive(Clone, Debug)]
pub struct DrmInfo {
    pub device_name: Option<String>,
    pub pci_revision_id: Option<u32>,
    pub family_name: Option<String>,
    pub family_id: Option<u32>,
    pub asic_name: Option<String>,
    pub chip_class: Option<String>,
    pub compute_units: Option<u32>,
    pub streaming_multiprocessors: Option<u32>,
    pub cuda_cores: Option<u32>,
    pub vram_type: Option<String>,
    pub vram_vendor: Option<String>,
    /// Ratio of the effective to the reported memory clock, in thousandths.
    pub vram_clock_ratio: u64,
    pub vram_bit_width: Option<u32>,
    pub vram_max_bw: Option<String>,
    pub l1_cache_per_cu: Option<u32>,
    pub l2_cache: Option<u32>,
    pub l3_cache_mb: Option<u32>,
    pub rop_info: Option<NvidiaRopInfo>,
    pub memory_info: Option<DrmMemoryInfo>,
    pub intel: IntelDrmInfo,
}

/// PCIe link state.
#[derive(Clone, Debug, Default)]
pub struct LinkInfo {
    pub current_width: Option<String>,
    pub current_speed: Option<String>,
    pub max_width: Option<String>,
    pub max_speed: Option<String>,
}

/// The Vulkan driver of a device.
#[derive(Clone, Debug)]
pub struct VulkanDriverInfo {
    pub version: u32,
    pub name: Option<String>,
    pub info: Option<String>,
    pub driver_version: Option<String>,
}

/// What the Vulkan driver reports about a device.
#[derive(Debug)]
pub struct VulkanInfo {
    pub device_name: String,
    pub api_version: String,
    pub driver: VulkanDriverInfo,
    pub enabled_layers: Vec<String>,
    pub features: IndexMap<String, bool>,
    pub extensions: IndexMap<String, bool>,
}

/// Static description of a device.
#[derive(Debug)]
pub struct DeviceInfo {
    pub pci_info: Option<GpuPciInfo>,
    pub vulkan_info: Option<VulkanInfo>,
    pub driver: String,
    pub vbios_version: Option<String>,
    pub link_info: LinkInfo,
    pub drm_info: Option<DrmInfo>,
}

impl DeviceInfo {
    /// The memory clock ratio in thousandths; 1000 where the driver gives none.
    pub fn vram_clock_ratio(&self) -> (r: u64)
        ensures
            r == match self.drm_info {
                Some(d) => d.vram_clock_ratio,
                None => 1000u64,
            },
    {
        match &self.drm_info {
            Some(d) => d.vram_clock_ratio,
            None => 1000,
        }
    }
}

#[derive(Clone, Copy, Debug, Default)]
pub struct ClockspeedStats {
    pub gpu_clockspeed: Option<u64>,
    /// Target clock
    pub current_gfxclk: Option<u64>,
    pub vram_clockspeed: Option<u64>,
}

#[derive(Clone, Copy, Debug, Default)]
pub struct VoltageStats {
    pub gpu: Option<u64>,
    pub northbridge: Option<u64>,
}

#[derive(Clone, Copy, Debug, Default)]
pub struct VramStats {
    pub total: Option<u64>,
    pub used: Option<u64>,
}

#[verifier::external_type_specification]
#[verifier::external_body]
pub struct ExFanInfo(FanInfo);

#[verifier::external_type_specification]
#[verifier::external_body]
pub struct ExPerformanceLevel(PerformanceLevel);

/// Fan limits that the board firmware reports.
#[derive(Clone, Copy, Debug, Default)]
pub struct PmfwInfo {
    pub acoustic_limit: Option<FanInfo>,
    pub acoustic_target: Option<FanInfo>,
    pub target_temp: Option<FanInfo>,
    pub minimum_pwm: Option<FanInfo>,
    pub zero_rpm_enable: Option<bool>,
    pub zero_rpm_temperature: Option<FanInfo>,
}

/// Fan state and control settings of a device.
#[derive(Debug, Default)]
pub struct FanStats {
    pub control_enabled: bool,
    pub control_mode: Option<FanControlMode>,
    /// Duty in thousandths.
    pub static_speed: Option<u32>,
    pub curve: Option<FanCurve>,
    pub pwm_current: Option<u8>,
    pub speed_current: Option<u32>,
    pub speed_max: Option<u32>,
    pub speed_min: Option<u32>,
    pub spindown_delay_ms: Option<u64>,
    pub change_threshold: Option<u64>,
    pub pmfw_info: PmfwInfo,
}

/// A live snapshot of a device's statistics.
#[derive(Debug, Default)]
pub struct DeviceStats {
    pub fan: FanStats,
    pub performance_level: Option<PerformanceLevel>,
    pub clockspeed: ClockspeedStats,
    pub voltage: VoltageStats,
    pub vram: VramStats,
    pub busy_percent: Option<u8>,
    pub core_power_state: Option<usize>,
    pub memory_power_state: Option<usize>,
    pub pcie_power_state: Option<usize>,
    /// Throttling reasons, grouped by kind.
    pub throttle_info: Option<BTreeMap<String, Vec<String>>>,
}

/// One power level.
#[derive(Clone, Copy, Debug)]
pub struct PowerState {
    pub enabled: bool,
    pub min_value: Option<u64>,
    pub value: u64,
    pub index: Option<u8>,
}

/// The power levels of the core and of the memory.
#[derive(Clone, Debug)]
pub struct PowerStates {
    pub core: Vec<PowerState>,
    pub vram: Vec<PowerState>,
}

impl PowerStates {
    /// Whether neither domain has a level.
    pub fn is_empty(&self) -> (r: bool)
        ensures
            r == (self.core@.len() == 0 && self.vram@.len() == 0),
    {
        self.core.len() == 0 && self.vram.len() == 0
    }
}

/// The initramfs generator of the system.
#[derive(Clone, Copy, Debug, PartialEq, Eq, Structural)]
pub enum InitramfsType {
    Debian,
    Mkinitcpio,
    Dracut,
}

} // verus!
