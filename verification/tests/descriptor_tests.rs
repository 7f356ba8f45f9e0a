use kmem::gdt::{AccessFlags, Gdt, Tss, TSS_SIZE};
use kmem::idt::{Descriptor, DescriptorFlags, DescriptorType, Idt, StandardHandler};
use kmem::PriviledgeLevel;

#[test]
fn gdt_code_segment_bits() {
    let mut gdt = Gdt::new();
    let selector = gdt.add_code_segment(0, 0xFF0000);
    assert_eq!(selector.0, 8);
    assert_eq!(gdt.entry_bits(0), 0);
    assert_eq!(gdt.entry_bits(1), 0x00AF_9A00_0000_0000);
}

#[test]
fn gdt_data_segment_bits() {
    let mut gdt = Gdt::new();
    let code = gdt.add_code_segment(0, 0xFF0000);
    let data = gdt.add_data_segment(0, 0);
    assert_eq!(code.0, 8);
    assert_eq!(data.0, 16);
    assert_eq!(gdt.entry_bits(2), 0x0000_9200_0000_0000);
}

#[test]
fn gdt_tss_is_double_width() {
    let mut gdt = Gdt::new();
    gdt.add_code_segment(0, 0xFF0000);
    let tss_addr: u64 = 0xFFFF_8000_1234_5678;
    let selector = gdt.add_tss(tss_addr);
    assert_eq!(selector.0, 16);
    assert_eq!(gdt.entry_bits(2), 0x1200_8934_5678_0067);
    assert_eq!(gdt.entry_bits(3), tss_addr >> 32);
}

#[test]
fn tss_starts_empty() {
    let tss = Tss::new();
    assert_eq!(tss.priviledge_stacks, [0u64; 3]);
    assert_eq!(tss.interrupt_stacks, [0u64; 7]);
    assert_eq!(tss.io_permission_base, 0);
    assert_eq!(TSS_SIZE, 104);
}

#[test]
fn access_priviledge_field() {
    let access = AccessFlags { bits: 0x9A };
    assert_eq!(access.set_priviledge(PriviledgeLevel::RingThree).bits, 0x9A | (3 << 5));
    assert_eq!(access.set_priviledge(PriviledgeLevel::RingZero).bits, 0x9A);
}

#[test]
fn descriptor_flag_fields() {
    let flags = DescriptorFlags::new()
        .set_type(DescriptorType::Interrupt)
        .set_priviledge(PriviledgeLevel::RingOne)
        .set_present();
    assert_eq!(flags.0, 0xAE);

    let trap = DescriptorFlags::new().set_type(DescriptorType::Trap);
    assert_eq!(trap.0, 0xF);

    // setting a new ring clears the old one first
    let moved = flags.set_priviledge(PriviledgeLevel::RingThree);
    assert_eq!(moved.0, 0x8E | (3 << 5));
}

#[test]
fn interrupt_descriptor_splits_offset() {
    let handler = StandardHandler::new(0xFFFF_DEAD_BEEF_1234);
    let entry: Descriptor<StandardHandler> = Descriptor::interrupt(handler, 8);
    assert_eq!(entry.gdt_selector, 8);
    assert_eq!(entry.offset_low, 0x1234);
    assert_eq!(entry.offset_mid, 0xBEEF);
    assert_eq!(entry.offset_high, 0xFFFF_DEAD);
    assert_eq!(entry.flags.0, 0xAE);
    assert_eq!(entry.ist, 0);
}

#[test]
fn idt_starts_empty() {
    let idt = Idt::new();
    assert_eq!(idt.div_by_zero.flags.0, 0);
    assert_eq!(idt.page_fault.flags.0, 0);
    assert_eq!(idt.descriptors.len(), 256 - 32);
    assert_eq!(idt.reserved2.len(), 9);
}
