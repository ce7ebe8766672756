use kcore::pci::{
    BaseAddressRegister, BaseAddressRegisterMemoryType, BaseAddressRegisterType, Pci,
    PciConfigSpace, PciDevice, PciHeaderType, PCI_VENDOR_ID_INTEL,
};

/// A standard-header configuration space for vendor:device 8086:1237.
fn standard_raw() -> [u32; 16] {
    let mut raw = [0u32; 16];
    raw[0] = (0x1237u32 << 16) | 0x8086; // device, vendor
    raw[1] = (0x0280u32 << 16) | 0x0007; // status, command
    raw[2] = 0x06_00_00_02; // class 06, subclass 00, prog-if 00, rev 02
    raw[3] = 0x00_00_10_08; // bist 0, header 0, latency 0x10, cache line 8
    raw[4] = 0x0000_1001; // BAR0: I/O space at 0x1000
    raw[5] = 0xFEBF_0000; // BAR1: 32-bit memory at 0xFEBF0000
    raw[6] = 0xC000_000C; // BAR2: 64-bit memory, low half
    raw[7] = 0x0000_0012; // BAR3: upper half word
    raw[10] = 0x1234_5678; // cardbus CIS pointer
    raw[11] = (0xBEEFu32 << 16) | 0x8086; // subsystem device, vendor
    raw[12] = 0xFEC0_0000; // expansion ROM
    raw[13] = 0x40; // capabilities pointer
    raw[15] = (0x12u32 << 24) | (0x34u32 << 16) | (0x01u32 << 8) | 0x0A;
    raw
}

fn bridge_raw() -> [u32; 16] {
    let mut raw = [0u32; 16];
    raw[0] = (0x3420u32 << 16) | 0x8086;
    raw[2] = 0x06_04_00_01;
    raw[3] = 0x00_01_00_00; // header type 1
    raw[6] = 0x20_10_05_01; // sec latency, subordinate, secondary, primary
    raw[7] = (0xABCDu32 << 16) | (0x55u32 << 8) | 0x44; // sec status, io limit, io base
    raw[8] = (0xFFF0u32 << 16) | 0xFE00; // mem limit, mem base
    raw[9] = (0xEEE0u32 << 16) | 0xDD00; // prefetch limit, base
    raw[10] = 0x1111_0001;
    raw[11] = 0x2222_0001;
    raw[12] = (0x8765u32 << 16) | 0x4321; // io limit upper, io base upper
    raw[14] = 0xFEB0_0000; // bridge expansion ROM
    raw[15] = (0x9876u32 << 16) | 0x00FF;
    raw
}

fn cardbus_raw() -> [u32; 16] {
    let mut raw = [0u32; 16];
    raw[0] = (0xAC56u32 << 16) | 0x104C;
    raw[2] = 0x06_07_00_00;
    raw[3] = 0x00_02_00_00; // header type 2
    raw[4] = 0xF000_0000; // socket/ExCA base
    raw[5] = (0x0123u32 << 16) | 0xA5; // secondary status, cap list offset
    raw[6] = 0x30_20_10_05;
    raw[7] = 0x4000_0000;
    raw[8] = 0x4000_0FFF;
    raw[9] = 0x5000_0000;
    raw[10] = 0x5000_0FFF;
    raw[11] = 0x6000_0000;
    raw[12] = 0x6000_00FF;
    raw[13] = 0x7000_0000;
    raw[14] = 0x7000_00FF;
    raw[15] = (0xCAFEu32 << 16) | 0x77;
    raw
}

fn device_from(raw: [u32; 16], bus: u8, dev: u8, func: u8) -> PciDevice {
    let mut d = PciDevice::new();
    d.set(bus, dev, func, raw);
    d
}

#[test]
fn standard_header_fields() {
    let d = device_from(standard_raw(), 0, 3, 1);
    assert_eq!(d.get_bus_num(), 0);
    assert_eq!(d.get_device_num(), 3);
    assert_eq!(d.get_func_num(), 1);
    assert!(d.is_exist());
    assert_eq!(d.get_vendor_id(), PCI_VENDOR_ID_INTEL);
    assert_eq!(d.get_device_id(), 0x1237);
    assert_eq!(d.get_status(), 0x0280);
    assert_eq!(d.get_commnad(), 0x0007);
    assert_eq!(d.get_revision_id(), 0x02);
    assert_eq!(d.get_program_interface_class_code(), 0x00);
    assert_eq!(d.get_sub_class_code(), 0x00);
    assert_eq!(d.get_base_class_code(), 0x06);
    assert_eq!(d.get_chache_line_size(), 8);
    assert_eq!(d.get_lat_timer(), 0x10);
    assert_eq!(d.get_header_type(), PciHeaderType::StandardPci);
    assert_eq!(d.get_bist_reg(), 0);
    assert_eq!(d.get_interrupt_line(), 0x0A);
    assert_eq!(d.get_interrupt_pin(), 0x01);
    assert_eq!(d.get_min_gnt(), Some(0x34));
    assert_eq!(d.get_max_lat(), Some(0x12));
    assert!(!d.is_multi_function_device());
    assert_eq!(d.get_cardbus_sis_pointer(), Some(0x12345678));
    assert_eq!(d.get_subsystem_device_id(), Some(0xBEEF));
    assert_eq!(d.get_subsystem_vendor_id(), Some(0x8086));
    assert_eq!(d.get_expansion_rom_base_addr(), Some(0xFEC00000));
    assert_eq!(d.get_cap_pointer(), Some(0x40));
    assert_eq!(d.get_base_addr_len(), 6);
    // a standard header has no bridge registers
    assert_eq!(d.get_secondary_bus_num(), None);
    assert_eq!(d.get_primary_bus_num(), None);
    assert_eq!(d.get_subordinate_bus_num(), None);
    assert_eq!(d.get_secondary_status(), None);
    assert_eq!(d.get_bridge_control_reg(), None);
    assert_eq!(d.get_io_limit(), None);
    assert_eq!(d.get_io_base(), None);
    assert_eq!(d.get_mem_limit(), None);
    assert_eq!(d.get_mem_base(), None);
    let regs = d.get_standard_base_addr_regs().unwrap();
    assert_eq!(regs[0], 0x0000_1001);
    assert_eq!(regs[5], standard_raw()[9]);
    assert_eq!(d.get_pci_to_pci_bridge_base_addr_regs(), None);
    assert_eq!(d.get_pc_card_legacy_mode_base_addr(), None);
}

#[test]
fn base_address_registers() {
    let d = device_from(standard_raw(), 0, 0, 0);
    // BAR0 is I/O space; the decoder reports memory BARs only
    assert_eq!(
        d.get_base_addr_reg_type(0),
        Some(BaseAddressRegisterType::IOSpace)
    );
    assert_eq!(d.get_base_addr_mem_type(0), None);
    assert_eq!(d.get_base_addr(0), None);
    // BAR1 is a 32-bit memory BAR
    assert_eq!(
        d.get_base_addr_reg_type(1),
        Some(BaseAddressRegisterType::MemorySpace)
    );
    assert_eq!(
        d.get_base_addr_mem_type(1),
        Some(BaseAddressRegisterMemoryType::Bit32Space)
    );
    assert_eq!(
        d.get_base_addr(1),
        Some(BaseAddressRegister::MemoryAddress32Bit(0xFEBF0000))
    );
    // BAR2 is the low half of a 64-bit memory BAR; its upper word is
    // drawn from the word after the register pair's low index
    assert_eq!(
        d.get_base_addr_mem_type(2),
        Some(BaseAddressRegisterMemoryType::Bit64Space)
    );
    assert_eq!(
        d.get_base_addr(2),
        Some(BaseAddressRegister::MemoryAddress64Bit(
            ((0xC000_0000u64) << 32) | (standard_raw()[3] as u64)
        ))
    );
    // out of range indexes decode to nothing
    assert_eq!(d.get_base_addr_reg_type(6), None);
    assert_eq!(d.get_base_addr(7), None);
}

#[test]
fn bridge_header_fields() {
    let d = device_from(bridge_raw(), 1, 2, 0);
    assert_eq!(d.get_header_type(), PciHeaderType::PciToPciBridge);
    assert_eq!(d.get_base_addr_len(), 2);
    assert_eq!(d.get_primary_bus_num(), Some(0x01));
    assert_eq!(d.get_secondary_bus_num(), Some(0x05));
    assert_eq!(d.get_subordinate_bus_num(), Some(0x10));
    assert_eq!(d.get_secondary_lat_timer(), Some(0x20));
    assert_eq!(d.get_secondary_status(), Some(0xABCD));
    assert_eq!(d.get_io_limit(), Some(0x55));
    assert_eq!(d.get_io_base(), Some(0x44));
    assert_eq!(d.get_mem_limit(), Some(0xFFF0));
    assert_eq!(d.get_mem_base(), Some(0xFE00));
    assert_eq!(d.get_prefetchable_mem_limit(), Some(0xEEE0));
    assert_eq!(d.get_prefetchable_mem_base(), Some(0xDD00));
    assert_eq!(d.get_prefetchable_base_upper(), Some(0x1111_0001));
    assert_eq!(d.get_prefetchable_limit_upper(), Some(0x2222_0001));
    assert_eq!(d.get_io_limit_upper(), Some(0x8765));
    assert_eq!(d.get_io_base_upper(), Some(0x4321));
    assert_eq!(d.get_bridge_control_reg(), Some(0x9876));
    assert_eq!(d.get_expansion_rom_base_addr(), Some(0xFEB0_0000));
    assert_eq!(d.get_subsystem_device_id(), None);
    assert_eq!(d.get_subsystem_vendor_id(), None);
    assert_eq!(d.get_cardbus_sis_pointer(), None);
    assert_eq!(d.get_cap_pointer(), None);
    assert_eq!(d.get_max_lat(), None);
    assert_eq!(d.get_min_gnt(), None);
    let regs = d.get_pci_to_pci_bridge_base_addr_regs().unwrap();
    assert_eq!(regs[0], bridge_raw()[4]);
    assert_eq!(regs[1], bridge_raw()[5]);
    assert_eq!(d.get_standard_base_addr_regs(), None);
}

#[test]
fn cardbus_header_fields() {
    let d = device_from(cardbus_raw(), 2, 0, 0);
    assert_eq!(d.get_header_type(), PciHeaderType::CardBusBridge);
    assert_eq!(d.get_base_addr_len(), 0);
    assert_eq!(d.get_cardbus_socket_exca_base_addr(), Some(0xF000_0000));
    assert_eq!(d.get_cap_list_offset(), Some(0xA5));
    assert_eq!(d.get_secondary_status(), Some(0x0123));
    assert_eq!(d.get_cardbus_lat_timer(), Some(0x30));
    assert_eq!(d.get_subordinate_bus_num(), Some(0x20));
    assert_eq!(d.get_cardbus_num(), Some(0x10));
    assert_eq!(d.get_pci_bus_num(), Some(0x05));
    assert_eq!(d.get_bridge_control_reg(), Some(0xCAFE));
    let mem = d.get_cardbus_bridge_mem_base_addr_regs().unwrap();
    assert_eq!(mem[0], cardbus_raw()[7]);
    assert_eq!(mem[1], cardbus_raw()[9]);
    let lim = d.get_cardbus_bridge_mem_limit_regs().unwrap();
    assert_eq!(lim[0], cardbus_raw()[8]);
    assert_eq!(lim[1], cardbus_raw()[10]);
    let iob = d.get_cardbus_bridge_io_base_addr_regs().unwrap();
    assert_eq!(iob[0], cardbus_raw()[11]);
    assert_eq!(iob[1], cardbus_raw()[13]);
    let iol = d.get_cardbus_bridge_io_limit_regs().unwrap();
    assert_eq!(iol[0], cardbus_raw()[12]);
    assert_eq!(iol[1], cardbus_raw()[14]);
    assert_eq!(d.get_expansion_rom_base_addr(), None);
    assert_eq!(d.get_cardbus_socket_exca_base_addr().is_some(), true);
}

#[test]
fn config_space_load_detects_presence() {
    let mut cs = PciConfigSpace::new();
    assert!(cs.get(standard_raw()).is_some());
    assert!(cs.get([0u32; 16]).is_none());
    let mut gone = [0u32; 16];
    gone[0] = 0xFFFF_FFFF;
    assert!(cs.get(gone).is_none());
}

#[test]
fn bus_enumeration_keeps_existing_devices_in_order() {
    let mut probed: Vec<PciDevice> = Vec::new();
    probed.push(device_from(standard_raw(), 0, 0, 0));
    probed.push(device_from([0u32; 16], 0, 0, 1)); // absent
    probed.push(device_from(bridge_raw(), 0, 1, 0));
    let mut gone = [0u32; 16];
    gone[0] = 0xFFFF_FFFF;
    probed.push(device_from(gone, 0, 1, 1)); // absent
    probed.push(device_from(cardbus_raw(), 2, 0, 0));

    let mut pci = Pci::new();
    pci.init(&probed);
    assert_eq!(pci.get_device_cnt(), 3);
    let devices = pci.get_devices();
    assert_eq!(devices.len(), 3);
    assert_eq!(devices[0].get_device_id(), 0x1237);
    assert_eq!(devices[1].get_header_type(), PciHeaderType::PciToPciBridge);
    assert_eq!(devices[2].get_header_type(), PciHeaderType::CardBusBridge);
}

#[test]
fn database_names_for_known_ids() {
    // vendor 8086 with a device id the database does not list
    let d = device_from(standard_raw(), 0, 0, 0);
    assert_eq!(d.get_vendor_name(), "Intel Corporation");

    // a device id the database lists: 16ae:000a "SafeXcel 1841"
    let mut raw = standard_raw();
    raw[0] = (0x000Au32 << 16) | 0x16AE;
    let d = device_from(raw, 0, 0, 0);
    assert_eq!(d.get_device_name(), "SafeXcel 1841");

    // class 01 / subclass 06 / prog-if 01 is AHCI
    let mut raw = standard_raw();
    raw[2] = 0x01_06_01_00;
    let d = device_from(raw, 0, 0, 0);
    assert_eq!(d.get_class_name(), "Mass storage controller");
    assert_eq!(d.get_sub_class_name(), "SATA controller");
    assert_eq!(d.get_program_interface_class_name(), "AHCI 1.0");
}

#[test]
fn database_names_for_unknown_ids() {
    let mut raw = standard_raw();
    raw[0] = (0x0001u32 << 16) | 0xFFF0; // vendor the database does not list
    raw[2] = 0xFE_00_00_00; // class the database does not list
    let d = device_from(raw, 0, 0, 0);
    assert_eq!(d.get_vendor_name(), "Unknown");
    assert_eq!(d.get_device_name(), "Unknown");
    assert_eq!(d.get_class_name(), "Unknown");
    assert_eq!(d.get_sub_class_name(), "Unknown");
    assert_eq!(d.get_program_interface_class_name(), "Unknown");
}
