use lact_schema::schema::{
    DeviceInfo, DeviceStats, DrmInfo, DrmMemoryInfo, GpuPciInfo, IntelDrmInfo, LinkInfo, NvidiaRopInfo, PciInfo,
    VramStats,
};

fn pci(vendor_id: &str, vendor: Option<&str>, model_id: &str, model: Option<&str>) -> PciInfo {
    PciInfo {
        vendor_id: vendor_id.to_string(),
        vendor: vendor.map(|s| s.to_string()),
        model_id: model_id.to_string(),
        model: model.map(|s| s.to_string()),
    }
}

fn drm() -> DrmInfo {
    DrmInfo {
        device_name: None,
        pci_revision_id: Some(0xc1),
        family_name: Some("Navi".to_string()),
        family_id: None,
        asic_name: None,
        chip_class: None,
        compute_units: Some(60),
        streaming_multiprocessors: None,
        cuda_cores: None,
        vram_type: Some("GDDR6".to_string()),
        vram_vendor: None,
        vram_clock_ratio: 2000,
        vram_bit_width: None,
        vram_max_bw: None,
        l1_cache_per_cu: Some(16384),
        l2_cache: Some(4194304),
        l3_cache_mb: Some(128),
        rop_info: Some(NvidiaRopInfo { unit_count: 12, operations_factor: 8, operations_count: 96 }),
        memory_info: Some(DrmMemoryInfo {
            cpu_accessible_used: 0,
            cpu_accessible_total: 16 * 1024 * 1024 * 1024,
            resizeable_bar: Some(true),
        }),
        intel: IntelDrmInfo { execution_units: None, subslices: Some(4) },
    }
}

fn device(with_drm: bool) -> DeviceInfo {
    DeviceInfo {
        vulkan_info: None,
        pci_info: Some(GpuPciInfo {
            device_pci_info: pci("1002", Some("AMD"), "73BF", Some("Navi 21")),
            subsystem_pci_info: pci("1DA2", Some("Sapphire"), "E438", None),
        }),
        driver: "amdgpu".to_string(),
        vbios_version: None,
        link_info: LinkInfo {
            current_width: Some("16".to_string()),
            current_speed: Some("16.0 GT/s".to_string()),
            max_width: None,
            max_speed: None,
        },
        drm_info: if with_drm { Some(drm()) } else { None },
    }
}

fn value<'a>(elements: &'a [(&str, Option<String>)], label: &str) -> Option<&'a Option<String>> {
    elements.iter().find(|e| e.0 == label).map(|e| &e.1)
}

#[test]
fn model_gets_ids_and_hex_revision() {
    let e = device(true).info_elements(None);
    assert_eq!(e[0], ("GPU Model", Some("Navi 21 (0x1002:0x73BF:0xC1)".to_string())));
    assert_eq!(e[1], ("Card Manufacturer", Some("Sapphire (0x1DA2)".to_string())));
    assert_eq!(e[2], ("Card Model", Some("Unknown (0xE438)".to_string())));
    assert_eq!(e[3], ("Driver Used", Some("amdgpu".to_string())));
    assert_eq!(e[4], ("VBIOS Version", None));
}

#[test]
fn model_without_revision() {
    let e = device(false).info_elements(None);
    assert_eq!(e[0].1, Some("Navi 21 (0x1002:0x73BF)".to_string()));
    assert_eq!(e.len(), 6);
    assert_eq!(e[5], ("Link Speed", Some("16.0 GT/s x16".to_string())));
}

#[test]
fn driver_facts_are_formatted() {
    let stats = DeviceStats { vram: VramStats { total: Some(8 * 1024 * 1024 * 1024), used: None }, ..Default::default() };
    let e = device(true).info_elements(Some(&stats));
    assert_eq!(value(&e, "VRAM Size"), Some(&Some("8192 MiB".to_string())));
    assert_eq!(value(&e, "Compute Units"), Some(&Some("60".to_string())));
    assert_eq!(value(&e, "Subslices"), Some(&None));
    assert_eq!(value(&e, "Execution Units"), Some(&None));
    assert_eq!(value(&e, "ROP Count"), Some(&Some("96 (12 * 8)".to_string())));
    assert_eq!(value(&e, "L1 Cache (Per CU)"), Some(&Some("16 KiB".to_string())));
    assert_eq!(value(&e, "L2 Cache"), Some(&Some("4096 KiB".to_string())));
    assert_eq!(value(&e, "L3 Cache"), Some(&Some("128 MiB".to_string())));
    assert_eq!(value(&e, "Resizeable bar"), Some(&Some("Enabled".to_string())));
    assert_eq!(value(&e, "CPU Accessible VRAM"), Some(&Some("16384".to_string())));
}

#[test]
fn unknown_device() {
    let d = DeviceInfo {
        pci_info: None,
        vulkan_info: None,
        driver: "i915".to_string(),
        vbios_version: Some("1.0".to_string()),
        link_info: LinkInfo::default(),
        drm_info: None,
    };
    let e = d.info_elements(None);
    assert_eq!(e.len(), 5);
    assert_eq!(e[0].1, Some("Unknown".to_string()));
    assert_eq!(e[4].1, Some("1.0".to_string()));
    assert_eq!(d.vram_clock_ratio(), 1000);
    assert_eq!(device(true).vram_clock_ratio(), 2000);
}
