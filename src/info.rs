//! The list of labelled facts shown for a device.
use vstd::prelude::*;
use vstd::string::StringExecFns;
use crate::schema::{DeviceInfo, DeviceStats, DrmInfo, GpuPciInfo, NvidiaRopInfo};

verus! {

/// The digit for `d`, in upper case beyond nine.
pub open spec fn digit(d: nat) -> char {
    seq!['0', '1', '2', '3', '4', '5', '6', '7', '8', '9', 'A', 'B', 'C', 'D', 'E', 'F'][d as int]
}

/// `n` written in decimal.
pub open spec fn dec(n: nat) -> Seq<char>
    decreases n,
{
    if n < 10 {
        seq![digit(n)]
    } else {
        dec(n / 10).push(digit(n % 10))
    }
}

/// `n` written in hexadecimal with upper-case digits.
pub open spec fn hex(n: nat) -> Seq<char>
    decreases n,
{
    if n < 16 {
        seq![digit(n)]
    } else {
        hex(n / 16).push(digit(n % 16))
    }
}

/// Relies on u64's ToString: its decimal digits.
#[verifier::external_body]
fn decimal(n: u64) -> (r: String)
    ensures
        r@ == dec(n as nat),
{
    n.to_string()
}

/// Relies on u32's UpperHex formatting: its hexadecimal digits.
#[verifier::external_body]
fn upper_hex(n: u32) -> (r: String)
    ensures
        r@ == hex(n as nat),
{
    format!("{n:X}")
}

/// The text of an optional string.
pub open spec fn text_of(s: Option<String>) -> Option<Seq<char>> {
    match s {
        Some(x) => Some(x@),
        None => None,
    }
}

/// An optional count in decimal.
pub open spec fn count_of(n: Option<u32>) -> Option<Seq<char>> {
    match n {
        Some(x) => Some(dec(x as nat)),
        None => None,
    }
}

/// An optional size in bytes, as whole KiB.
pub open spec fn kib_of(n: Option<u32>) -> Option<Seq<char>> {
    match n {
        Some(x) => Some(dec(x as nat / 1024) + " KiB"@),
        None => None,
    }
}

pub open spec fn rop_text(r: Option<NvidiaRopInfo>) -> Option<Seq<char>> {
    match r {
        Some(x) => Some(dec(x.operations_count as nat) + " ("@ + dec(x.unit_count as nat) + " * "@
            + dec(x.operations_factor as nat) + ")"@),
        None => None,
    }
}

pub open spec fn or_unknown(s: Option<String>) -> Seq<char> {
    match s {
        Some(x) => x@,
        None => "Unknown"@,
    }
}

impl DeviceInfo {
    /// The model name before the PCI ids are appended.
    pub open spec fn model_base(&self) -> Seq<char> {
        match self.drm_info {
            Some(d) if d.device_name is Some => d.device_name->0@,
            _ => match self.pci_info {
                Some(p) => or_unknown(p.device_pci_info.model),
                None => "Unknown"@,
            },
        }
    }

    pub open spec fn model_spec(&self) -> Seq<char> {
        match self.pci_info {
            None => self.model_base(),
            Some(p) => {
                let ids = self.model_base() + " (0x"@ + p.device_pci_info.vendor_id@ + ":0x"@ + p.device_pci_info.model_id@;
                match self.drm_info {
                    Some(d) if d.pci_revision_id is Some => ids + ":0x"@ + hex(d.pci_revision_id->0 as nat) + ")"@,
                    _ => ids + ")"@,
                }
            },
        }
    }

    pub open spec fn manufacturer_spec(&self) -> Seq<char> {
        match self.pci_info {
            None => "Unknown"@,
            Some(p) => or_unknown(p.subsystem_pci_info.vendor) + " (0x"@ + p.subsystem_pci_info.vendor_id@ + ")"@,
        }
    }

    pub open spec fn card_model_spec(&self) -> Seq<char> {
        match self.pci_info {
            None => "Unknown"@,
            Some(p) => or_unknown(p.subsystem_pci_info.model) + " (0x"@ + p.subsystem_pci_info.model_id@ + ")"@,
        }
    }

    /// The labelled facts, in display order.
    pub open spec fn elements_spec(&self, stats: Option<DeviceStats>) -> Seq<(Seq<char>, Option<Seq<char>>)> {
        seq![
            ("GPU Model"@, Some(self.model_spec())),
            ("Card Manufacturer"@, Some(self.manufacturer_spec())),
            ("Card Model"@, Some(self.card_model_spec())),
            ("Driver Used"@, Some(self.driver@)),
            ("VBIOS Version"@, text_of(self.vbios_version)),
        ] + match stats {
            Some(s) => seq![("VRAM Size"@, match s.vram.total {
                Some(t) => Some(dec(t as nat / 1024 / 1024) + " MiB"@),
                None => None,
            })],
            None => seq![],
        } + match self.drm_info {
            Some(d) => drm_elements(d),
            None => seq![],
        } + match (self.link_info.current_speed, self.link_info.current_width) {
            (Some(s), Some(w)) => seq![("Link Speed"@, Some(s@ + " x"@ + w@))],
            _ => seq![],
        }
    }
}

/// The facts that the kernel driver gives.
pub open spec fn drm_elements(d: DrmInfo) -> Seq<(Seq<char>, Option<Seq<char>>)> {
    seq![
        ("GPU Family"@, text_of(d.family_name)),
        ("ASIC Name"@, text_of(d.asic_name)),
        ("Compute Units"@, count_of(d.compute_units)),
        ("Execution Units"@, count_of(d.intel.execution_units)),
        ("Subslices"@, count_of(d.intel.execution_units)),
        ("Cuda Cores"@, count_of(d.cuda_cores)),
        ("SM Count"@, count_of(d.streaming_multiprocessors)),
        ("ROP Count"@, rop_text(d.rop_info)),
        ("VRAM Type"@, text_of(d.vram_type)),
        ("VRAM Manufacturer"@, text_of(d.vram_vendor)),
        ("Theoretical VRAM Bandwidth"@, text_of(d.vram_max_bw)),
        ("L1 Cache (Per CU)"@, kib_of(d.l1_cache_per_cu)),
        ("L2 Cache"@, kib_of(d.l2_cache)),
        ("L3 Cache"@, match d.l3_cache_mb {
            Some(x) => Some(dec(x as nat) + " MiB"@),
            None => None,
        }),
    ] + match d.memory_info {
        Some(m) => (match m.resizeable_bar {
            Some(b) => seq![("Resizeable bar"@, Some(if b { "Enabled"@ } else { "Disabled"@ }))],
            None => seq![],
        }) + seq![("CPU Accessible VRAM"@, Some(dec(m.cpu_accessible_total as nat / 1024 / 1024)))],
        None => seq![],
    }
}

/// The view of a list of facts.
pub open spec fn elements_view(v: Seq<(&'static str, Option<String>)>) -> Seq<(Seq<char>, Option<Seq<char>>)> {
    v.map_values(|e: (&'static str, Option<String>)| (e.0@, text_of(e.1)))
}


proof fn lemma_view_append(a: Seq<(&'static str, Option<String>)>, b: Seq<(&'static str, Option<String>)>)
    ensures
        elements_view(a + b) == elements_view(a) + elements_view(b),
{
    assert(elements_view(a + b) =~= elements_view(a) + elements_view(b));
}

fn copy_text(s: &Option<String>) -> (r: Option<String>)
    ensures
        text_of(r) == text_of(*s),
{
    match s {
        Some(x) => Some(x.clone()),
        None => None,
    }
}

fn count_text(n: Option<u32>) -> (r: Option<String>)
    ensures
        text_of(r) == count_of(n),
{
    match n {
        Some(x) => Some(decimal(x as u64)),
        None => None,
    }
}

fn kib_text(n: Option<u32>) -> (r: Option<String>)
    ensures
        text_of(r) == kib_of(n),
{
    match n {
        Some(x) => Some(decimal((x / 1024) as u64).concat(" KiB")),
        None => None,
    }
}

fn rop_count_text(r: &Option<NvidiaRopInfo>) -> (t: Option<String>)
    ensures
        text_of(t) == rop_text(*r),
{
    match r {
        Some(x) => Some(decimal(x.operations_count as u64).concat(" (").concat(decimal(x.unit_count as u64).as_str())
            .concat(" * ").concat(decimal(x.operations_factor as u64).as_str()).concat(")")),
        None => None,
    }
}

fn unknown_or(s: &Option<String>) -> (r: String)
    ensures
        r@ == or_unknown(*s),
{
    match s {
        Some(x) => x.clone(),
        None => "Unknown".to_owned(),
    }
}

fn drm_elements_of(d: &DrmInfo) -> (r: Vec<(&'static str, Option<String>)>)
    ensures
        elements_view(r@) == drm_elements(*d),
{
    let mut v: Vec<(&'static str, Option<String>)> = Vec::new();
    v.push(("GPU Family", copy_text(&d.family_name)));
    v.push(("ASIC Name", copy_text(&d.asic_name)));
    v.push(("Compute Units", count_text(d.compute_units)));
    v.push(("Execution Units", count_text(d.intel.execution_units)));
    v.push(("Subslices", count_text(d.intel.execution_units)));
    v.push(("Cuda Cores", count_text(d.cuda_cores)));
    v.push(("SM Count", count_text(d.streaming_multiprocessors)));
    v.push(("ROP Count", rop_count_text(&d.rop_info)));
    v.push(("VRAM Type", copy_text(&d.vram_type)));
    v.push(("VRAM Manufacturer", copy_text(&d.vram_vendor)));
    v.push(("Theoretical VRAM Bandwidth", copy_text(&d.vram_max_bw)));
    v.push(("L1 Cache (Per CU)", kib_text(d.l1_cache_per_cu)));
    v.push(("L2 Cache", kib_text(d.l2_cache)));
    let l3 = match d.l3_cache_mb {
        Some(x) => Some(decimal(x as u64).concat(" MiB")),
        None => None,
    };
    v.push(("L3 Cache", l3));
    let ghost head = v@;
    let mut w: Vec<(&'static str, Option<String>)> = Vec::new();
    if let Some(m) = &d.memory_info {
        if let Some(b) = m.resizeable_bar {
            let t = if b { "Enabled".to_owned() } else { "Disabled".to_owned() };
            w.push(("Resizeable bar", Some(t)));
        }
        w.push(("CPU Accessible VRAM", Some(decimal(m.cpu_accessible_total / 1024 / 1024))));
    }
    assert(elements_view(head) =~= drm_elements(*d).subrange(0, 14));
    let ghost tail = w@;
    v.append(&mut w);
    proof {
        lemma_view_append(head, tail);
        assert(elements_view(tail) =~= drm_elements(*d).subrange(14, drm_elements(*d).len() as int));
        assert(drm_elements(*d) =~= drm_elements(*d).subrange(0, 14) + drm_elements(*d).subrange(14, drm_elements(*d).len() as int));
    }
    v
}

impl DeviceInfo {
    /// The labelled facts about the device, in display order; a fact that is
    /// not known has no value.
    pub fn info_elements(&self, stats: Option<&DeviceStats>) -> (r: Vec<(&'static str, Option<String>)>)
        ensures
            elements_view(r@) == self.elements_spec(match stats {
                Some(s) => Some(*s),
                None => None,
            }),
    {
        let mut gpu_model = match &self.drm_info {
            Some(d) if d.device_name.is_some() => match &d.device_name {
                Some(n) => n.clone(),
                None => "Unknown".to_owned(),
            },
            _ => match &self.pci_info {
                Some(p) => unknown_or(&p.device_pci_info.model),
                None => "Unknown".to_owned(),
            },
        };
        let mut card_manufacturer = match &self.pci_info {
            Some(p) => unknown_or(&p.subsystem_pci_info.vendor),
            None => "Unknown".to_owned(),
        };
        let mut card_model = match &self.pci_info {
            Some(p) => unknown_or(&p.subsystem_pci_info.model),
            None => "Unknown".to_owned(),
        };
        if let Some(p) = &self.pci_info {
            gpu_model = gpu_model.concat(" (0x").concat(p.device_pci_info.vendor_id.as_str()).concat(":0x")
                .concat(p.device_pci_info.model_id.as_str());
            let rev = match &self.drm_info {
                Some(d) => d.pci_revision_id,
                None => None,
            };
            gpu_model = match rev {
                Some(rv) => gpu_model.concat(":0x").concat(upper_hex(rv).as_str()).concat(")"),
                None => gpu_model.concat(")"),
            };
            card_manufacturer = card_manufacturer.concat(" (0x").concat(p.subsystem_pci_info.vendor_id.as_str()).concat(")");
            card_model = card_model.concat(" (0x").concat(p.subsystem_pci_info.model_id.as_str()).concat(")");
        }
        let mut v: Vec<(&'static str, Option<String>)> = Vec::new();
        v.push(("GPU Model", Some(gpu_model)));
        v.push(("Card Manufacturer", Some(card_manufacturer)));
        v.push(("Card Model", Some(card_model)));
        v.push(("Driver Used", Some(self.driver.clone())));
        v.push(("VBIOS Version", copy_text(&self.vbios_version)));
        let ghost sstats = match stats {
            Some(s) => Some(*s),
            None => None::<DeviceStats>,
        };
        let ghost spec = self.elements_spec(sstats);
        let ghost a = v@;
        let mut w: Vec<(&'static str, Option<String>)> = Vec::new();
        if let Some(s) = stats {
            let size = match s.vram.total {
                Some(t) => Some(decimal(t / 1024 / 1024).concat(" MiB")),
                None => None,
            };
            w.push(("VRAM Size", size));
        }
        let ghost b = w@;
        let mut x: Vec<(&'static str, Option<String>)> = match &self.drm_info {
            Some(d) => drm_elements_of(d),
            None => Vec::new(),
        };
        let ghost c = x@;
        let mut y: Vec<(&'static str, Option<String>)> = Vec::new();
        match (&self.link_info.current_speed, &self.link_info.current_width) {
            (Some(sp), Some(wd)) => {
                y.push(("Link Speed", Some(sp.clone().concat(" x").concat(wd.as_str()))));
            },
            _ => {},
        }
        let ghost e = y@;
        v.append(&mut w);
        v.append(&mut x);
        v.append(&mut y);
        proof {
            lemma_view_append(a, b);
            lemma_view_append(a + b, c);
            lemma_view_append(a + b + c, e);
            assert(elements_view(a) =~= seq![
                ("GPU Model"@, Some(self.model_spec())),
                ("Card Manufacturer"@, Some(self.manufacturer_spec())),
                ("Card Model"@, Some(self.card_model_spec())),
                ("Driver Used"@, Some(self.driver@)),
                ("VBIOS Version"@, text_of(self.vbios_version)),
            ]);
            assert(elements_view(b) =~= match sstats {
                Some(s) => seq![("VRAM Size"@, match s.vram.total {
                    Some(t) => Some(dec(t as nat / 1024 / 1024) + " MiB"@),
                    None => None,
                })],
                None => seq![],
            });
            assert(elements_view(e) =~= match (self.link_info.current_speed, self.link_info.current_width) {
                (Some(s), Some(w)) => seq![("Link Speed"@, Some(s@ + " x"@ + w@))],
                _ => seq![],
            });
            assert(elements_view(c) =~= match self.drm_info {
                Some(d) => drm_elements(d),
                None => seq![],
            });
            assert(a + b + c + e == v@);
        }
        v
    }
}

} // verus!
