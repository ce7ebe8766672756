//! PCI configuration-space decoding: devices are identified by bus,
//! device and function number, and carry a snapshot of the first 64
//! bytes of their configuration space as sixteen 32-bit words. All
//! register accessors are pure reads of that snapshot; the port I/O
//! that fills the snapshot happens at the kernel's edge. Device,
//! vendor and class names come from the PCI ID database.

use vstd::prelude::*;

use pci_ids::FromId;

verus! {

pub const PCI_VENDOR_ID_INTEL: u16 = 0x8086;

const PCI_CS32_DEVICE_NOT_EXIST: u32 = 0xffffffff;

/// Header layout of a configuration space.
#[derive(Debug, PartialEq, Eq, Structural, Clone, Copy)]
pub enum PciHeaderType {
    StandardPci,
    PciToPciBridge,
    CardBusBridge,
}

/// Address-space kind of a base address register.
#[derive(Debug, PartialEq, Eq, Structural, Clone, Copy)]
pub enum BaseAddressRegisterType {
    MemorySpace,
    IOSpace,
}

/// Width of a memory-space base address register.
#[derive(Debug, PartialEq, Eq, Structural, Clone, Copy)]
pub enum BaseAddressRegisterMemoryType {
    Bit32Space,
    Bit64Space,
}

/// A decoded base address register.
#[derive(Debug, PartialEq, Eq, Structural, Clone, Copy)]
pub enum BaseAddressRegister {
    MemoryAddress32Bit(u32),
    MemoryAddress64Bit(u64),
    IOPort(u16),
}

/// The first sixteen 32-bit words of a function's configuration space.
#[derive(Debug, PartialEq, Eq, Clone, Copy)]
pub struct PciConfigSpace {
    pub raw_data: [u32; 16],
}

/// A function's configuration space holds a device exactly when its
/// first word is neither zero nor the all-ones no-device pattern.
pub open spec fn spec_cs_exists(raw: [u32; 16]) -> bool {
    raw[0] != 0 && raw[0] != 0xffffffffu32
}

impl PciConfigSpace {
    /// An empty snapshot.
    pub fn new() -> (r: PciConfigSpace)
        ensures
            forall|i: int| 0 <= i < 16 ==> r.raw_data[i] == 0,
    {
        PciConfigSpace { raw_data: [0u32; 16] }
    }

    /// Loads a snapshot read from a function's configuration space and
    /// reports it back when it holds a device.
    pub fn get(&mut self, raw_data: [u32; 16]) -> (r: Option<PciConfigSpace>)
        ensures
            final(self).raw_data == raw_data,
            r is Some <==> spec_cs_exists(raw_data),
            r matches Some(c) ==> c == *final(self),
    {
        self.raw_data = raw_data;
        if self.is_exist() {
            Some(*self)
        } else {
            None
        }
    }

    /// Whether the snapshot holds a device.
    fn is_exist(&self) -> (r: bool)
        ensures
            r == spec_cs_exists(self.raw_data),
    {
        self.raw_data[0] != 0 && self.raw_data[0] != PCI_CS32_DEVICE_NOT_EXIST
    }
}

/// Header layout encoded in word 3 of a configuration space.
pub open spec fn spec_header_type(raw: [u32; 16]) -> PciHeaderType {
    if (raw[3] >> 16) as u8 == 1 {
        PciHeaderType::PciToPciBridge
    } else if (raw[3] >> 16) as u8 == 2 {
        PciHeaderType::CardBusBridge
    } else {
        PciHeaderType::StandardPci
    }
}

/// Number of base address registers of a header layout.
pub open spec fn spec_base_addr_len(raw: [u32; 16]) -> int {
    match spec_header_type(raw) {
        PciHeaderType::StandardPci => 6,
        PciHeaderType::PciToPciBridge => 2,
        PciHeaderType::CardBusBridge => 0,
    }
}

/// Address-space kind of base address register `index`.
pub open spec fn spec_bar_reg_type(raw: [u32; 16], index: int) -> Option<
    BaseAddressRegisterType,
> {
    if index > 5 {
        None
    } else if raw[index + 4] & 0x1 != 0 {
        Some(BaseAddressRegisterType::IOSpace)
    } else {
        Some(BaseAddressRegisterType::MemorySpace)
    }
}

/// Width of memory-space base address register `index`.
pub open spec fn spec_bar_mem_type(raw: [u32; 16], index: int) -> Option<
    BaseAddressRegisterMemoryType,
> {
    if spec_bar_reg_type(raw, index) != Some(BaseAddressRegisterType::MemorySpace) {
        None
    } else {
        let sel = (raw[index + 4] as u8) & 0x6;
        if sel == 0x0 || sel == 0x2 {
            Some(BaseAddressRegisterMemoryType::Bit32Space)
        } else {
            Some(BaseAddressRegisterMemoryType::Bit64Space)
        }
    }
}

/// The decoded base address register `index`, following the header
/// layout's register count and the 64-bit combining rule.
pub open spec fn spec_base_addr(raw: [u32; 16], index: int) -> Option<BaseAddressRegister> {
    if index > spec_base_addr_len(raw) {
        None
    } else if spec_bar_mem_type(raw, index) is None {
        None
    } else if raw[4 + index] == 0 {
        None
    } else {
        let bar = raw[4 + index];
        if spec_bar_mem_type(raw, index) == Some(BaseAddressRegisterMemoryType::Bit64Space) {
            Some(
                BaseAddressRegister::MemoryAddress64Bit(
                    (((bar & !0xfu32) as u64) << 32u64) | (raw[index + 1] as u64),
                ),
            )
        } else {
            Some(BaseAddressRegister::MemoryAddress32Bit(bar & !0xfu32))
        }
    }
}

/// The name the PCI ID database gives a vendor identifier, if any.
pub uninterp spec fn vendor_name_of(vendor_id: u16) -> Option<Seq<char>>;

/// The name the PCI ID database gives a device, if any.
pub uninterp spec fn device_name_of(vendor_id: u16, device_id: u16) -> Option<Seq<char>>;

/// The name the PCI ID database gives a base class, if any.
pub uninterp spec fn class_name_of(class_id: u8) -> Option<Seq<char>>;

/// The name the PCI ID database gives a subclass, if any.
pub uninterp spec fn subclass_name_of(class_id: u8, subclass_id: u8) -> Option<Seq<char>>;

/// The programming-interface entries the PCI ID database lists under a
/// subclass: identifier and name, in database order.
pub uninterp spec fn prog_if_entries_of(class_id: u8, subclass_id: u8) -> Seq<(u8, Seq<char>)>;

/// Relies on pci_ids' `Vendor::from_id`: the vendor's database entry.
#[verifier::external_body]
fn lookup_vendor_name(vendor_id: u16) -> (r: Option<String>)
    ensures
        r is Some <==> vendor_name_of(vendor_id) is Some,
        r matches Some(s) ==> vendor_name_of(vendor_id) == Some(s@),
{
    pci_ids::Vendor::from_id(vendor_id).map(|v| v.name().to_owned())
}

/// Relies on pci_ids' `Device::from_vid_pid`: the device's database
/// entry under its vendor.
#[verifier::external_body]
fn lookup_device_name(vendor_id: u16, device_id: u16) -> (r: Option<String>)
    ensures
        r is Some <==> device_name_of(vendor_id, device_id) is Some,
        r matches Some(s) ==> device_name_of(vendor_id, device_id) == Some(s@),
{
    pci_ids::Device::from_vid_pid(vendor_id, device_id).map(|d| d.name().to_owned())
}

/// Relies on pci_ids' `Class::from_id`: the class's database entry.
#[verifier::external_body]
fn lookup_class_name(class_id: u8) -> (r: Option<String>)
    ensures
        r is Some <==> class_name_of(class_id) is Some,
        r matches Some(s) ==> class_name_of(class_id) == Some(s@),
{
    pci_ids::Class::from_id(class_id).map(|c| c.name().to_owned())
}

/// Relies on pci_ids' `Subclass::from_cid_sid`: the subclass's database
/// entry under its class.
#[verifier::external_body]
fn lookup_subclass_name(class_id: u8, subclass_id: u8) -> (r: Option<String>)
    ensures
        r is Some <==> subclass_name_of(class_id, subclass_id) is Some,
        r matches Some(s) ==> subclass_name_of(class_id, subclass_id) == Some(s@),
{
    pci_ids::Subclass::from_cid_sid(class_id, subclass_id).map(|sc| sc.name().to_owned())
}

/// Relies on pci_ids' `Subclass::from_cid_sid` and `prog_ifs`: the
/// programming-interface entries listed under the subclass, or nothing
/// when the database lacks the subclass.
#[verifier::external_body]
fn lookup_prog_if_entries(class_id: u8, subclass_id: u8) -> (r: Vec<(u8, String)>)
    ensures
        r@.len() == prog_if_entries_of(class_id, subclass_id).len(),
        forall|i: int|
            0 <= i < r@.len() ==> (#[trigger] r@[i]).0 == prog_if_entries_of(
                class_id,
                subclass_id,
            )[i].0 && r@[i].1@ == prog_if_entries_of(class_id, subclass_id)[i].1,
{
    match pci_ids::Subclass::from_cid_sid(class_id, subclass_id) {
        Some(sc) => sc.prog_ifs().map(|p| (p.id(), p.name().to_owned())).collect(),
        None => Vec::new(),
    }
}

/// The first name listed for `id` among programming-interface entries.
pub open spec fn spec_find_prog_if_name(entries: Seq<(u8, Seq<char>)>, id: u8) -> Option<
    Seq<char>,
>
    decreases entries.len(),
{
    if entries.len() == 0 {
        None
    } else if entries.first().0 == id {
        Some(entries.first().1)
    } else {
        spec_find_prog_if_name(entries.drop_first(), id)
    }
}

/// Searching past a prefix without a match finds the same entry.
proof fn lemma_find_prog_if_skip(entries: Seq<(u8, Seq<char>)>, id: u8, i: int)
    requires
        0 <= i <= entries.len(),
        forall|j: int| 0 <= j < i ==> (#[trigger] entries[j]).0 != id,
    ensures
        spec_find_prog_if_name(entries, id) == spec_find_prog_if_name(
            entries.subrange(i, entries.len() as int),
            id,
        ),
    decreases i,
{
    if i > 0 {
        lemma_find_prog_if_skip(entries, id, i - 1);
        let s1 = entries.subrange(i - 1, entries.len() as int);
        let s2 = entries.subrange(i, entries.len() as int);
        assert(s1.drop_first() =~= s2);
        assert(s1.first() == entries[i - 1]);
    } else {
        assert(entries.subrange(0, entries.len() as int) =~= entries);
    }
}

/// A device found on the bus: its location and its configuration-space
/// snapshot.
#[derive(Debug, PartialEq, Eq, Clone, Copy)]
pub struct PciDevice {
    pub config_space: PciConfigSpace,
    pub bus: u8,
    pub device: u8,
    pub func: u8,
}

/// The devices of a probe sweep that actually exist, in probe order.
pub open spec fn spec_existing_devices(probed: Seq<PciDevice>) -> Seq<PciDevice>
    decreases probed.len(),
{
    if probed.len() == 0 {
        Seq::empty()
    } else {
        let rest = spec_existing_devices(probed.drop_last());
        if spec_cs_exists(probed.last().config_space.raw_data) {
            rest.push(probed.last())
        } else {
            rest
        }
    }
}

/// The set of devices found by enumerating the bus.
#[derive(Debug, PartialEq, Eq)]
pub struct Pci {
    pub devices: Vec<PciDevice>,
    pub device_cnt: usize,
}

impl Pci {
    /// An empty device list.
    pub fn new() -> (r: Pci)
        ensures
            r.devices@.len() == 0,
            r.device_cnt == 0,
    {
        Pci { devices: Vec::new(), device_cnt: 0 }
    }

    /// Keeps, in probe order, every probed function whose configuration
    /// space holds a device.
    pub fn init(&mut self, probed: &Vec<PciDevice>)
        ensures
            final(self).devices@ == spec_existing_devices(probed@),
            final(self).device_cnt == final(self).devices@.len(),
    {
        let mut devices: Vec<PciDevice> = Vec::new();
        let mut i: usize = 0;
        while i < probed.len()
            invariant
                i <= probed@.len(),
                devices@ == spec_existing_devices(probed@.take(i as int)),
            decreases probed@.len() - i,
        {
            let d: PciDevice = probed[i];
            if d.is_exist() {
                devices.push(d);
            }
            proof {
                let prefix2 = probed@.take(i + 1);
                assert(prefix2.drop_last() =~= probed@.take(i as int));
                assert(prefix2.last() == probed@[i as int]);
            }
            i += 1;
        }
        proof {
            assert(probed@.take(probed@.len() as int) =~= probed@);
        }
        self.device_cnt = devices.len();
        self.devices = devices;
    }

    /// The devices found, in probe order.
    pub fn get_devices(&self) -> (r: &Vec<PciDevice>)
        ensures
            r@ == self.devices@,
    {
        &self.devices
    }

    /// Number of devices found.
    pub fn get_device_cnt(&self) -> (r: usize)
        ensures
            r == self.device_cnt,
    {
        self.device_cnt
    }
}

impl PciDevice {
    /// A device record with an empty snapshot at location 0:0.0.
    pub fn new() -> (r: PciDevice)
        ensures
            forall|i: int| 0 <= i < 16 ==> r.config_space.raw_data[i] == 0,
            r.bus == 0 && r.device == 0 && r.func == 0,
    {
        PciDevice { config_space: PciConfigSpace::new(), bus: 0, device: 0, func: 0 }
    }

    /// Installs a location and the configuration-space snapshot read
    /// there.
    pub fn set(&mut self, bus: u8, device: u8, func: u8, raw_data: [u32; 16])
        ensures
            final(self).bus == bus,
            final(self).device == device,
            final(self).func == func,
            final(self).config_space.raw_data == raw_data,
    {
        let _ = self.config_space.get(raw_data);
        self.bus = bus;
        self.device = device;
        self.func = func;
    }

    /// Bus number of the device.
    pub fn get_bus_num(&self) -> (r: u8)
        ensures
            r == self.bus,
    {
        self.bus
    }

    /// Device number on its bus.
    pub fn get_device_num(&self) -> (r: u8)
        ensures
            r == self.device,
    {
        self.device
    }

    /// Function number of the device.
    pub fn get_func_num(&self) -> (r: u8)
        ensures
            r == self.func,
    {
        self.func
    }

    /// Whether the snapshot holds a device.
    pub fn is_exist(&self) -> (r: bool)
        ensures
            r == spec_cs_exists(self.config_space.raw_data),
    {
        self.config_space.is_exist()
    }

    /// The device's name in the PCI ID database, or `Unknown`.
    pub fn get_device_name(&self) -> (r: String)
        ensures
            device_name_of(
                self.config_space.raw_data[0] as u16,
                (self.config_space.raw_data[0] >> 16) as u16,
            ) matches Some(n) ==> r@ == n,
            device_name_of(
                self.config_space.raw_data[0] as u16,
                (self.config_space.raw_data[0] >> 16) as u16,
            ) is None ==> r@ == "Unknown"@,
    {
        match lookup_device_name(self.get_vendor_id(), self.get_device_id()) {
            Some(name) => name,
            None => "Unknown".to_owned(),
        }
    }

    /// The vendor's name in the PCI ID database, or `Unknown`.
    pub fn get_vendor_name(&self) -> (r: String)
        ensures
            vendor_name_of(self.config_space.raw_data[0] as u16) matches Some(n) ==> r@ == n,
            vendor_name_of(self.config_space.raw_data[0] as u16) is None ==> r@ == "Unknown"@,
    {
        match lookup_vendor_name(self.get_vendor_id()) {
            Some(name) => name,
            None => "Unknown".to_owned(),
        }
    }

    /// The base class's name in the PCI ID database, or `Unknown`.
    pub fn get_class_name(&self) -> (r: String)
        ensures
            class_name_of((self.config_space.raw_data[2] >> 24) as u8) matches Some(n) ==> r@
                == n,
            class_name_of((self.config_space.raw_data[2] >> 24) as u8) is None ==> r@
                == "Unknown"@,
    {
        match lookup_class_name(self.get_base_class_code()) {
            Some(name) => name,
            None => "Unknown".to_owned(),
        }
    }

    /// The subclass's name in the PCI ID database, or `Unknown`.
    pub fn get_sub_class_name(&self) -> (r: String)
        ensures
            subclass_name_of(
                (self.config_space.raw_data[2] >> 24) as u8,
                (self.config_space.raw_data[2] >> 16) as u8,
            ) matches Some(n) ==> r@ == n,
            subclass_name_of(
                (self.config_space.raw_data[2] >> 24) as u8,
                (self.config_space.raw_data[2] >> 16) as u8,
            ) is None ==> r@ == "Unknown"@,
    {
        match lookup_subclass_name(self.get_base_class_code(), self.get_sub_class_code()) {
            Some(name) => name,
            None => "Unknown".to_owned(),
        }
    }

    /// The programming interface's name in the PCI ID database, or
    /// `Unknown`: the first entry under the device's subclass whose
    /// identifier matches the device's programming-interface code.
    pub fn get_program_interface_class_name(&self) -> (r: String)
        ensures
            spec_find_prog_if_name(
                prog_if_entries_of(
                    (self.config_space.raw_data[2] >> 24) as u8,
                    (self.config_space.raw_data[2] >> 16) as u8,
                ),
                (self.config_space.raw_data[2] >> 8) as u8,
            ) matches Some(n) ==> r@ == n,
            spec_find_prog_if_name(
                prog_if_entries_of(
                    (self.config_space.raw_data[2] >> 24) as u8,
                    (self.config_space.raw_data[2] >> 16) as u8,
                ),
                (self.config_space.raw_data[2] >> 8) as u8,
            ) is None ==> r@ == "Unknown"@,
    {
        let pif: u8 = self.get_program_interface_class_code();
        let entries: Vec<(u8, String)> = lookup_prog_if_entries(
            self.get_base_class_code(),
            self.get_sub_class_code(),
        );
        let ghost spec_entries = prog_if_entries_of(
            (self.config_space.raw_data[2] >> 24) as u8,
            (self.config_space.raw_data[2] >> 16) as u8,
        );
        let mut i: usize = 0;
        while i < entries.len()
            invariant
                i <= entries@.len(),
                spec_entries == prog_if_entries_of(
                    (self.config_space.raw_data[2] >> 24) as u8,
                    (self.config_space.raw_data[2] >> 16) as u8,
                ),
                pif == (self.config_space.raw_data[2] >> 8) as u8,
                entries@.len() == spec_entries.len(),
                forall|j: int|
                    0 <= j < entries@.len() ==> (#[trigger] entries@[j]).0 == spec_entries[j].0
                        && entries@[j].1@ == spec_entries[j].1,
                forall|j: int| 0 <= j < i ==> (#[trigger] spec_entries[j]).0 != pif,
            decreases entries@.len() - i,
        {
            if entries[i].0 == pif {
                let name: String = entries[i].1.clone();
                proof {
                    lemma_find_prog_if_skip(spec_entries, pif, i as int);
                    let tail = spec_entries.subrange(i as int, spec_entries.len() as int);
                    assert(tail.first() == spec_entries[i as int]);
                }
                return name;
            }
            i += 1;
        }
        proof {
            lemma_find_prog_if_skip(spec_entries, pif, spec_entries.len() as int);
            let tail = spec_entries.subrange(
                spec_entries.len() as int,
                spec_entries.len() as int,
            );
            assert(tail.len() == 0);
        }
        "Unknown".to_owned()
    }

    /// Device identifier: the high half of word 0.
    pub fn get_device_id(&self) -> (r: u16)
        ensures
            r == (self.config_space.raw_data[0] >> 16) as u16,
    {
        (self.config_space.raw_data[0] >> 16) as u16
    }

    /// Vendor identifier: the low half of word 0.
    pub fn get_vendor_id(&self) -> (r: u16)
        ensures
            r == self.config_space.raw_data[0] as u16,
    {
        self.config_space.raw_data[0] as u16
    }

    /// Status register: the high half of word 1.
    pub fn get_status(&self) -> (r: u16)
        ensures
            r == (self.config_space.raw_data[1] >> 16) as u16,
    {
        (self.config_space.raw_data[1] >> 16) as u16
    }

    /// Command register: the low half of word 1.
    pub fn get_commnad(&self) -> (r: u16)
        ensures
            r == self.config_space.raw_data[1] as u16,
    {
        self.config_space.raw_data[1] as u16
    }

    /// Revision identifier: the low byte of word 2.
    pub fn get_revision_id(&self) -> (r: u8)
        ensures
            r == self.config_space.raw_data[2] as u8,
    {
        self.config_space.raw_data[2] as u8
    }

    /// Programming-interface code: byte 1 of word 2.
    pub fn get_program_interface_class_code(&self) -> (r: u8)
        ensures
            r == (self.config_space.raw_data[2] >> 8) as u8,
    {
        (self.config_space.raw_data[2] >> 8) as u8
    }

    /// Subclass code: byte 2 of word 2.
    pub fn get_sub_class_code(&self) -> (r: u8)
        ensures
            r == (self.config_space.raw_data[2] >> 16) as u8,
    {
        (self.config_space.raw_data[2] >> 16) as u8
    }

    /// Base class code: byte 3 of word 2.
    pub fn get_base_class_code(&self) -> (r: u8)
        ensures
            r == (self.config_space.raw_data[2] >> 24) as u8,
    {
        (self.config_space.raw_data[2] >> 24) as u8
    }

    /// Cache line size: the low byte of word 3.
    pub fn get_chache_line_size(&self) -> (r: u8)
        ensures
            r == self.config_space.raw_data[3] as u8,
    {
        self.config_space.raw_data[3] as u8
    }

    /// Latency timer: byte 1 of word 3.
    pub fn get_lat_timer(&self) -> (r: u8)
        ensures
            r == (self.config_space.raw_data[3] >> 8) as u8,
    {
        (self.config_space.raw_data[3] >> 8) as u8
    }

    /// Header layout of the device.
    pub fn get_header_type(&self) -> (r: PciHeaderType)
        ensures
            r == spec_header_type(self.config_space.raw_data),
    {
        let tp: u8 = (self.config_space.raw_data[3] >> 16) as u8;
        match tp {
            1 => PciHeaderType::PciToPciBridge,
            2 => PciHeaderType::CardBusBridge,
            _ => PciHeaderType::StandardPci,
        }
    }

    /// Built-in self-test register: byte 3 of word 3.
    pub fn get_bist_reg(&self) -> (r: u8)
        ensures
            r == (self.config_space.raw_data[3] >> 24) as u8,
    {
        (self.config_space.raw_data[3] >> 24) as u8
    }

    /// Interrupt pin: byte 1 of word 15.
    pub fn get_interrupt_pin(&self) -> (r: u8)
        ensures
            r == (self.config_space.raw_data[15] >> 8) as u8,
    {
        (self.config_space.raw_data[15] >> 8) as u8
    }

    /// Interrupt line: the low byte of word 15.
    pub fn get_interrupt_line(&self) -> (r: u8)
        ensures
            r == self.config_space.raw_data[15] as u8,
    {
        self.config_space.raw_data[15] as u8
    }

    /// Whether the device exposes several functions.
    pub fn is_multi_function_device(&self) -> (r: bool)
        ensures
            r == ((self.config_space.raw_data[3] >> 16) as u8 & 0x80 != 0),
    {
        ((self.config_space.raw_data[3] >> 16) as u8 & 0x80) != 0
    }

    /// Address-space kind of base address register `index`.
    pub fn get_base_addr_reg_type(&self, index: usize) -> (r: Option<BaseAddressRegisterType>)
        ensures
            r == spec_bar_reg_type(self.config_space.raw_data, index as int),
    {
        if index > 5 {
            return None;
        }
        let bar: u32 = self.config_space.raw_data[index + 4];
        if (bar & 0x1) != 0 {
            Some(BaseAddressRegisterType::IOSpace)
        } else {
            Some(BaseAddressRegisterType::MemorySpace)
        }
    }

    /// Width of memory-space base address register `index`.
    pub fn get_base_addr_mem_type(&self, index: usize) -> (r: Option<
        BaseAddressRegisterMemoryType,
    >)
        ensures
            r == spec_bar_mem_type(self.config_space.raw_data, index as int),
    {
        let is_mem: bool = match self.get_base_addr_reg_type(index) {
            Some(BaseAddressRegisterType::MemorySpace) => true,
            _ => false,
        };
        if !is_mem {
            return None;
        }
        let bar: u32 = self.config_space.raw_data[index + 4];
        let sel: u8 = (bar as u8) & 0x6;
        if sel == 0x0 || sel == 0x2 {
            Some(BaseAddressRegisterMemoryType::Bit32Space)
        } else {
            Some(BaseAddressRegisterMemoryType::Bit64Space)
        }
    }

    /// The decoded base address register `index`.
    pub fn get_base_addr(&self, index: usize) -> (r: Option<BaseAddressRegister>)
        ensures
            r == spec_base_addr(self.config_space.raw_data, index as int),
    {
        if index > self.get_base_addr_len() {
            return None;
        }
        let mem_type = self.get_base_addr_mem_type(index);
        if mem_type.is_none() {
            return None;
        }
        let bar: u32 = self.config_space.raw_data[4 + index];
        if bar == 0 {
            return None;
        }
        let is_64: bool = match mem_type {
            Some(BaseAddressRegisterMemoryType::Bit64Space) => true,
            _ => false,
        };
        if is_64 {
            let upper: u32 = bar & !0xf;
            let lower: u64 = self.config_space.raw_data[index + 1] as u64;
            Some(BaseAddressRegister::MemoryAddress64Bit(((upper as u64) << 32u64) | lower))
        } else {
            Some(BaseAddressRegister::MemoryAddress32Bit(bar & !0xf))
        }
    }

    /// Number of base address registers of this device's header layout.
    pub fn get_base_addr_len(&self) -> (r: usize)
        ensures
            r == spec_base_addr_len(self.config_space.raw_data),
    {
        match self.get_header_type() {
            PciHeaderType::StandardPci => 6,
            PciHeaderType::PciToPciBridge => 2,
            PciHeaderType::CardBusBridge => 0,
        }
    }

    /// CardBus socket structure pointer, on a standard header.
    pub fn get_cardbus_sis_pointer(&self) -> (r: Option<u32>)
        ensures
            r == if spec_header_type(self.config_space.raw_data) == PciHeaderType::StandardPci {
                Some(self.config_space.raw_data[10])
            } else {
                Option::<u32>::None
            },
    {
        match self.get_header_type() {
            PciHeaderType::StandardPci => Some(self.config_space.raw_data[10]),
            _ => None,
        }
    }

    /// Subsystem device identifier. On a CardBus header the identifier
    /// lives past the sixteen snapshotted words, so such a device is
    /// outside this accessor's domain.
    pub fn get_subsystem_device_id(&self) -> (r: Option<u16>)
        requires
            spec_header_type(self.config_space.raw_data) != PciHeaderType::CardBusBridge,
        ensures
            r == match spec_header_type(self.config_space.raw_data) {
                PciHeaderType::StandardPci => Some((self.config_space.raw_data[11] >> 16) as u16),
                PciHeaderType::PciToPciBridge => None,
                PciHeaderType::CardBusBridge => None,
            },
    {
        match self.get_header_type() {
            PciHeaderType::StandardPci => Some((self.config_space.raw_data[11] >> 16) as u16),
            _ => None,
        }
    }

    /// Subsystem vendor identifier. On a CardBus header the identifier
    /// lives past the sixteen snapshotted words, so such a device is
    /// outside this accessor's domain.
    pub fn get_subsystem_vendor_id(&self) -> (r: Option<u16>)
        requires
            spec_header_type(self.config_space.raw_data) != PciHeaderType::CardBusBridge,
        ensures
            r == match spec_header_type(self.config_space.raw_data) {
                PciHeaderType::StandardPci => Some(self.config_space.raw_data[11] as u16),
                PciHeaderType::PciToPciBridge => None,
                PciHeaderType::CardBusBridge => None,
            },
    {
        match self.get_header_type() {
            PciHeaderType::StandardPci => Some(self.config_space.raw_data[11] as u16),
            _ => None,
        }
    }

    /// Expansion ROM base address, where the header layout has one.
    pub fn get_expansion_rom_base_addr(&self) -> (r: Option<u32>)
        ensures
            r == match spec_header_type(self.config_space.raw_data) {
                PciHeaderType::StandardPci => Some(self.config_space.raw_data[12]),
                PciHeaderType::PciToPciBridge => Some(self.config_space.raw_data[14]),
                PciHeaderType::CardBusBridge => None,
            },
    {
        match self.get_header_type() {
            PciHeaderType::StandardPci => Some(self.config_space.raw_data[12]),
            PciHeaderType::PciToPciBridge => Some(self.config_space.raw_data[14]),
            PciHeaderType::CardBusBridge => None,
        }
    }

    /// Capabilities pointer, on a standard header.
    pub fn get_cap_pointer(&self) -> (r: Option<u8>)
        ensures
            r == if spec_header_type(self.config_space.raw_data) == PciHeaderType::StandardPci {
                Some(self.config_space.raw_data[13] as u8)
            } else {
                Option::<u8>::None
            },
    {
        match self.get_header_type() {
            PciHeaderType::StandardPci => Some(self.config_space.raw_data[13] as u8),
            _ => None,
        }
    }

    /// Maximum latency, on a standard header.
    pub fn get_max_lat(&self) -> (r: Option<u8>)
        ensures
            r == if spec_header_type(self.config_space.raw_data) == PciHeaderType::StandardPci {
                Some((self.config_space.raw_data[15] >> 24) as u8)
            } else {
                Option::<u8>::None
            },
    {
        match self.get_header_type() {
            PciHeaderType::StandardPci => Some((self.config_space.raw_data[15] >> 24) as u8),
            _ => None,
        }
    }

    /// Minimum grant, on a standard header.
    pub fn get_min_gnt(&self) -> (r: Option<u8>)
        ensures
            r == if spec_header_type(self.config_space.raw_data) == PciHeaderType::StandardPci {
                Some((self.config_space.raw_data[15] >> 16) as u8)
            } else {
                Option::<u8>::None
            },
    {
        match self.get_header_type() {
            PciHeaderType::StandardPci => Some((self.config_space.raw_data[15] >> 16) as u8),
            _ => None,
        }
    }

    /// Secondary latency timer, on a bridge header.
    pub fn get_secondary_lat_timer(&self) -> (r: Option<u8>)
        ensures
            r == if spec_header_type(self.config_space.raw_data)
                == PciHeaderType::PciToPciBridge {
                Some((self.config_space.raw_data[6] >> 24) as u8)
            } else {
                Option::<u8>::None
            },
    {
        match self.get_header_type() {
            PciHeaderType::PciToPciBridge => Some((self.config_space.raw_data[6] >> 24) as u8),
            _ => None,
        }
    }

    /// Subordinate bus number, on either bridge header.
    pub fn get_subordinate_bus_num(&self) -> (r: Option<u8>)
        ensures
            r == if spec_header_type(self.config_space.raw_data) == PciHeaderType::StandardPci {
                Option::<u8>::None
            } else {
                Some((self.config_space.raw_data[6] >> 16) as u8)
            },
    {
        match self.get_header_type() {
            PciHeaderType::StandardPci => None,
            _ => Some((self.config_space.raw_data[6] >> 16) as u8),
        }
    }

    /// Secondary bus number, on a bridge header.
    pub fn get_secondary_bus_num(&self) -> (r: Option<u8>)
        ensures
            r == if spec_header_type(self.config_space.raw_data)
                == PciHeaderType::PciToPciBridge {
                Some((self.config_space.raw_data[6] >> 8) as u8)
            } else {
                Option::<u8>::None
            },
    {
        match self.get_header_type() {
            PciHeaderType::PciToPciBridge => Some((self.config_space.raw_data[6] >> 8) as u8),
            _ => None,
        }
    }

    /// Primary bus number, on a bridge header.
    pub fn get_primary_bus_num(&self) -> (r: Option<u8>)
        ensures
            r == if spec_header_type(self.config_space.raw_data)
                == PciHeaderType::PciToPciBridge {
                Some(self.config_space.raw_data[6] as u8)
            } else {
                Option::<u8>::None
            },
    {
        match self.get_header_type() {
            PciHeaderType::PciToPciBridge => Some(self.config_space.raw_data[6] as u8),
            _ => None,
        }
    }

    /// Secondary status register, where the header layout has one.
    pub fn get_secondary_status(&self) -> (r: Option<u16>)
        ensures
            r == match spec_header_type(self.config_space.raw_data) {
                PciHeaderType::StandardPci => None,
                PciHeaderType::PciToPciBridge => Some(
                    (self.config_space.raw_data[7] >> 16) as u16,
                ),
                PciHeaderType::CardBusBridge => Some((self.config_space.raw_data[5] >> 16) as u16),
            },
    {
        match self.get_header_type() {
            PciHeaderType::StandardPci => None,
            PciHeaderType::PciToPciBridge => Some((self.config_space.raw_data[7] >> 16) as u16),
            PciHeaderType::CardBusBridge => Some((self.config_space.raw_data[5] >> 16) as u16),
        }
    }

    /// I/O limit register, on a bridge header.
    pub fn get_io_limit(&self) -> (r: Option<u8>)
        ensures
            r == if spec_header_type(self.config_space.raw_data)
                == PciHeaderType::PciToPciBridge {
                Some((self.config_space.raw_data[7] >> 8) as u8)
            } else {
                Option::<u8>::None
            },
    {
        match self.get_header_type() {
            PciHeaderType::PciToPciBridge => Some((self.config_space.raw_data[7] >> 8) as u8),
            _ => None,
        }
    }

    /// I/O base register, on a bridge header.
    pub fn get_io_base(&self) -> (r: Option<u8>)
        ensures
            r == if spec_header_type(self.config_space.raw_data)
                == PciHeaderType::PciToPciBridge {
                Some(self.config_space.raw_data[7] as u8)
            } else {
                Option::<u8>::None
            },
    {
        match self.get_header_type() {
            PciHeaderType::PciToPciBridge => Some(self.config_space.raw_data[7] as u8),
            _ => None,
        }
    }

    /// Memory limit register, on a bridge header.
    pub fn get_mem_limit(&self) -> (r: Option<u16>)
        ensures
            r == if spec_header_type(self.config_space.raw_data)
                == PciHeaderType::PciToPciBridge {
                Some((self.config_space.raw_data[8] >> 16) as u16)
            } else {
                Option::<u16>::None
            },
    {
        match self.get_header_type() {
            PciHeaderType::PciToPciBridge => Some((self.config_space.raw_data[8] >> 16) as u16),
            _ => None,
        }
    }

    /// Memory base register, on a bridge header.
    pub fn get_mem_base(&self) -> (r: Option<u16>)
        ensures
            r == if spec_header_type(self.config_space.raw_data)
                == PciHeaderType::PciToPciBridge {
                Some(self.config_space.raw_data[8] as u16)
            } else {
                Option::<u16>::None
            },
    {
        match self.get_header_type() {
            PciHeaderType::PciToPciBridge => Some(self.config_space.raw_data[8] as u16),
            _ => None,
        }
    }

    /// Prefetchable memory limit register, on a bridge header.
    pub fn get_prefetchable_mem_limit(&self) -> (r: Option<u16>)
        ensures
            r == if spec_header_type(self.config_space.raw_data)
                == PciHeaderType::PciToPciBridge {
                Some((self.config_space.raw_data[9] >> 16) as u16)
            } else {
                Option::<u16>::None
            },
    {
        match self.get_header_type() {
            PciHeaderType::PciToPciBridge => Some((self.config_space.raw_data[9] >> 16) as u16),
            _ => None,
        }
    }

    /// Prefetchable memory base register, on a bridge header.
    pub fn get_prefetchable_mem_base(&self) -> (r: Option<u16>)
        ensures
            r == if spec_header_type(self.config_space.raw_data)
                == PciHeaderType::PciToPciBridge {
                Some(self.config_space.raw_data[9] as u16)
            } else {
                Option::<u16>::None
            },
    {
        match self.get_header_type() {
            PciHeaderType::PciToPciBridge => Some(self.config_space.raw_data[9] as u16),
            _ => None,
        }
    }

    /// Prefetchable base upper half, on a bridge header.
    pub fn get_prefetchable_base_upper(&self) -> (r: Option<u32>)
        ensures
            r == if spec_header_type(self.config_space.raw_data)
                == PciHeaderType::PciToPciBridge {
                Some(self.config_space.raw_data[10])
            } else {
                Option::<u32>::None
            },
    {
        match self.get_header_type() {
            PciHeaderType::PciToPciBridge => Some(self.config_space.raw_data[10]),
            _ => None,
        }
    }

    /// Prefetchable limit upper half, on a bridge header.
    pub fn get_prefetchable_limit_upper(&self) -> (r: Option<u32>)
        ensures
            r == if spec_header_type(self.config_space.raw_data)
                == PciHeaderType::PciToPciBridge {
                Some(self.config_space.raw_data[11])
            } else {
                Option::<u32>::None
            },
    {
        match self.get_header_type() {
            PciHeaderType::PciToPciBridge => Some(self.config_space.raw_data[11]),
            _ => None,
        }
    }

    /// I/O limit upper half, on a bridge header.
    pub fn get_io_limit_upper(&self) -> (r: Option<u16>)
        ensures
            r == if spec_header_type(self.config_space.raw_data)
                == PciHeaderType::PciToPciBridge {
                Some((self.config_space.raw_data[12] >> 16) as u16)
            } else {
                Option::<u16>::None
            },
    {
        match self.get_header_type() {
            PciHeaderType::PciToPciBridge => Some((self.config_space.raw_data[12] >> 16) as u16),
            _ => None,
        }
    }

    /// I/O base upper half, on a bridge header.
    pub fn get_io_base_upper(&self) -> (r: Option<u16>)
        ensures
            r == if spec_header_type(self.config_space.raw_data)
                == PciHeaderType::PciToPciBridge {
                Some(self.config_space.raw_data[12] as u16)
            } else {
                Option::<u16>::None
            },
    {
        match self.get_header_type() {
            PciHeaderType::PciToPciBridge => Some(self.config_space.raw_data[12] as u16),
            _ => None,
        }
    }

    /// Bridge control register, on either bridge header.
    pub fn get_bridge_control_reg(&self) -> (r: Option<u16>)
        ensures
            r == if spec_header_type(self.config_space.raw_data) == PciHeaderType::StandardPci {
                Option::<u16>::None
            } else {
                Some((self.config_space.raw_data[15] >> 16) as u16)
            },
    {
        match self.get_header_type() {
            PciHeaderType::StandardPci => None,
            _ => Some((self.config_space.raw_data[15] >> 16) as u16),
        }
    }

    /// Socket or ExCA base address, on a CardBus header.
    pub fn get_cardbus_socket_exca_base_addr(&self) -> (r: Option<u32>)
        ensures
            r == if spec_header_type(self.config_space.raw_data)
                == PciHeaderType::CardBusBridge {
                Some(self.config_space.raw_data[4])
            } else {
                Option::<u32>::None
            },
    {
        match self.get_header_type() {
            PciHeaderType::CardBusBridge => Some(self.config_space.raw_data[4]),
            _ => None,
        }
    }

    /// Capability list offset, on a CardBus header.
    pub fn get_cap_list_offset(&self) -> (r: Option<u8>)
        ensures
            r == if spec_header_type(self.config_space.raw_data)
                == PciHeaderType::CardBusBridge {
                Some(self.config_space.raw_data[5] as u8)
            } else {
                Option::<u8>::None
            },
    {
        match self.get_header_type() {
            PciHeaderType::CardBusBridge => Some(self.config_space.raw_data[5] as u8),
            _ => None,
        }
    }

    /// CardBus latency timer, on a CardBus header.
    pub fn get_cardbus_lat_timer(&self) -> (r: Option<u8>)
        ensures
            r == if spec_header_type(self.config_space.raw_data)
                == PciHeaderType::CardBusBridge {
                Some((self.config_space.raw_data[6] >> 24) as u8)
            } else {
                Option::<u8>::None
            },
    {
        match self.get_header_type() {
            PciHeaderType::CardBusBridge => Some((self.config_space.raw_data[6] >> 24) as u8),
            _ => None,
        }
    }

    /// CardBus bus number, on a CardBus header.
    pub fn get_cardbus_num(&self) -> (r: Option<u8>)
        ensures
            r == if spec_header_type(self.config_space.raw_data)
                == PciHeaderType::CardBusBridge {
                Some((self.config_space.raw_data[6] >> 8) as u8)
            } else {
                Option::<u8>::None
            },
    {
        match self.get_header_type() {
            PciHeaderType::CardBusBridge => Some((self.config_space.raw_data[6] >> 8) as u8),
            _ => None,
        }
    }

    /// PCI bus number, on a CardBus header.
    pub fn get_pci_bus_num(&self) -> (r: Option<u8>)
        ensures
            r == if spec_header_type(self.config_space.raw_data)
                == PciHeaderType::CardBusBridge {
                Some(self.config_space.raw_data[6] as u8)
            } else {
                Option::<u8>::None
            },
    {
        match self.get_header_type() {
            PciHeaderType::CardBusBridge => Some(self.config_space.raw_data[6] as u8),
            _ => None,
        }
    }

    /// PC Card legacy mode base address. The register lives past the
    /// sixteen snapshotted words, so a CardBus device is outside this
    /// accessor's domain and every other header layout has no such
    /// register.
    pub fn get_pc_card_legacy_mode_base_addr(&self) -> (r: Option<u32>)
        requires
            spec_header_type(self.config_space.raw_data) != PciHeaderType::CardBusBridge,
        ensures
            r is None,
    {
        None
    }

    /// The six base address register words of a standard header.
    pub fn get_standard_base_addr_regs(&self) -> (r: Option<[u32; 6]>)
        ensures
            r matches Some(regs) ==> spec_header_type(self.config_space.raw_data)
                == PciHeaderType::StandardPci && (forall|i: int|
                0 <= i < 6 ==> regs[i] == self.config_space.raw_data[4 + i]),
            r is None <==> spec_header_type(self.config_space.raw_data)
                != PciHeaderType::StandardPci,
    {
        match self.get_header_type() {
            PciHeaderType::StandardPci => Some(
                [
                    self.config_space.raw_data[4],
                    self.config_space.raw_data[5],
                    self.config_space.raw_data[6],
                    self.config_space.raw_data[7],
                    self.config_space.raw_data[8],
                    self.config_space.raw_data[9],
                ],
            ),
            _ => None,
        }
    }

    /// The two base address register words of a bridge header.
    pub fn get_pci_to_pci_bridge_base_addr_regs(&self) -> (r: Option<[u32; 2]>)
        ensures
            r matches Some(regs) ==> spec_header_type(self.config_space.raw_data)
                == PciHeaderType::PciToPciBridge && regs[0] == self.config_space.raw_data[4]
                && regs[1] == self.config_space.raw_data[5],
            r is None <==> spec_header_type(self.config_space.raw_data)
                != PciHeaderType::PciToPciBridge,
    {
        match self.get_header_type() {
            PciHeaderType::PciToPciBridge => Some(
                [self.config_space.raw_data[4], self.config_space.raw_data[5]],
            ),
            _ => None,
        }
    }

    /// The memory base address register words of a CardBus header.
    pub fn get_cardbus_bridge_mem_base_addr_regs(&self) -> (r: Option<[u32; 2]>)
        ensures
            r matches Some(regs) ==> spec_header_type(self.config_space.raw_data)
                == PciHeaderType::CardBusBridge && regs[0] == self.config_space.raw_data[7]
                && regs[1] == self.config_space.raw_data[9],
            r is None <==> spec_header_type(self.config_space.raw_data)
                != PciHeaderType::CardBusBridge,
    {
        match self.get_header_type() {
            PciHeaderType::CardBusBridge => Some(
                [self.config_space.raw_data[7], self.config_space.raw_data[9]],
            ),
            _ => None,
        }
    }

    /// The memory limit register words of a CardBus header.
    pub fn get_cardbus_bridge_mem_limit_regs(&self) -> (r: Option<[u32; 2]>)
        ensures
            r matches Some(regs) ==> spec_header_type(self.config_space.raw_data)
                == PciHeaderType::CardBusBridge && regs[0] == self.config_space.raw_data[8]
                && regs[1] == self.config_space.raw_data[10],
            r is None <==> spec_header_type(self.config_space.raw_data)
                != PciHeaderType::CardBusBridge,
    {
        match self.get_header_type() {
            PciHeaderType::CardBusBridge => Some(
                [self.config_space.raw_data[8], self.config_space.raw_data[10]],
            ),
            _ => None,
        }
    }

    /// The I/O base address register words of a CardBus header.
    pub fn get_cardbus_bridge_io_base_addr_regs(&self) -> (r: Option<[u32; 2]>)
        ensures
            r matches Some(regs) ==> spec_header_type(self.config_space.raw_data)
                == PciHeaderType::CardBusBridge && regs[0] == self.config_space.raw_data[11]
                && regs[1] == self.config_space.raw_data[13],
            r is None <==> spec_header_type(self.config_space.raw_data)
                != PciHeaderType::CardBusBridge,
    {
        match self.get_header_type() {
            PciHeaderType::CardBusBridge => Some(
                [self.config_space.raw_data[11], self.config_space.raw_data[13]],
            ),
            _ => None,
        }
    }

    /// The I/O limit register words of a CardBus header.
    pub fn get_cardbus_bridge_io_limit_regs(&self) -> (r: Option<[u32; 2]>)
        ensures
            r matches Some(regs) ==> spec_header_type(self.config_space.raw_data)
                == PciHeaderType::CardBusBridge && regs[0] == self.config_space.raw_data[12]
                && regs[1] == self.config_space.raw_data[14],
            r is None <==> spec_header_type(self.config_space.raw_data)
                != PciHeaderType::CardBusBridge,
    {
        match self.get_header_type() {
            PciHeaderType::CardBusBridge => Some(
                [self.config_space.raw_data[12], self.config_space.raw_data[14]],
            ),
            _ => None,
        }
    }
}

} // verus!
