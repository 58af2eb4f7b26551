use exokernel::kernel::userspace::{test_program, user_memory_plan};
use exokernel::boot::stage2::disk::{AlignedArrayBuffer, AlignedBuffer, DiskReader, Seek, SeekFrom};
use exokernel::boot::stage2::disk::file::{load_file, FileRead};
use exokernel::boot::stage2::memory::{e820_step, E820Step, SMAP};
use exokernel::boot::info::{MemoryRegion, VideoInfo};
use exokernel::boot::stage1;
use exokernel::boot::stage2::dap::DiskRead;
use exokernel::boot::stage2::disk::dap::DiskRead as SectorDiskRead;
use exokernel::boot::stage2::gdt::GDT;
use exokernel::boot::stage2::legacy_print;
use exokernel::boot::stage2::print::{printhex, printnumb};
use exokernel::boot::stage2::vesa::{mode_number, VBEInfo, VBEModeInfo};
use exokernel::kernel::allocator::{heap_pages, HEAP_START};
use exokernel::kernel::interrupts::{interrupt_action, InterruptAction, InterruptIndex, Pics, PIC_1_OFFSET, PIC_2_OFFSET};
use exokernel::kernel::memory::frame_allocator::{BootInfoFrameAllocator, PhysRegion};
use exokernel::kernel::task::context::Context;
use exokernel::kernel::task::process::{Process, ProcessId, ProcessState};
use exokernel::kernel::task::scheduler::{init as task_init, tick, yield_now as task_yield, Scheduler, Switch};

#[test]
fn disk_address_packets() {
    let d = stage1::DAP::new(4, 0x7E00, 9);
    assert_eq!((d.size, d.sectors, d.offset, d.segment, d.lba), (0x10, 4, 0, 0x7E0, 9));
    let mut r = DiskRead::new(1000, 0x80);
    let packets = r.read_len(0x2_0000, 0x1_0000, 512);
    assert_eq!(packets.len(), 3);
    assert_eq!(packets[0].lba, 1000 / 512);
    assert_eq!(packets[0].sectors, ((0xFFFF - 1000 % 512) - 1) / 512 + 1);
    r.seek(0);
    let again = r.read_len(512, 0x8000, 512);
    assert_eq!(again.len(), 1);
    assert_eq!((again[0].lba, again[0].sectors, again[0].segment, again[0].offset), (1000 / 512, 1, 0x800, 0));
}

#[test]
fn sector_reads_go_32_sectors_at_a_time() {
    let mut r = SectorDiskRead::new(0, 0x80);
    let packets = r.read_len(70 * 512, 0x1_0000, 70 * 512);
    let sectors: Vec<u16> = packets.iter().map(|p| p.sectors).collect();
    assert_eq!(sectors, vec![32, 32, 6]);
    assert_eq!(packets[1].lba, 32);
    assert_eq!(packets[1].segment as u32, (0x1_0000 + 32 * 512) >> 4);
    r.seek(512);
    let one = r.read_len(512, 0x2000, 512);
    assert_eq!((one.len(), one[0].lba, one[0].sectors), (1, 1, 1));
}

#[test]
fn console_output_of_numbers() {
    assert_eq!(printnumb(407), vec![0, b'4', b'0', b'7']);
    assert_eq!(printnumb(0), vec![0]);
    assert_eq!(printhex(0x2AF), vec![0, b'2', b'A', b'F']);
    assert_eq!(legacy_print::print_numb(0), vec![b'0', 0]);
    assert_eq!(legacy_print::print_hex(0x1F), vec![0, b'1', b'F']);
    assert_eq!(exokernel::boot::stage2::print::println("ok"), vec![b'o', b'k', b'\n', b'\r']);
    assert_eq!(legacy_print::print_hex_buf(&[0x3C]), vec![b'C', b'3', b' ']);
    let row: Vec<u8> = (0..33).collect();
    let out = legacy_print::printcharbuf(&row);
    assert_eq!(out.len(), 35);
    assert_eq!(&out[32..34], &[b'\n', b'\r']);
}

#[test]
fn vesa_mode_choice() {
    let mut block = vec![0u8; 256];
    block[0] = 0x90;
    block[16..18].copy_from_slice(&3200u16.to_le_bytes());
    block[18..20].copy_from_slice(&800u16.to_le_bytes());
    block[20..22].copy_from_slice(&600u16.to_le_bytes());
    block[25] = 32;
    block[40..44].copy_from_slice(&0xFD00_0000u32.to_le_bytes());
    let good = VBEModeInfo::parse(&block);
    let mut plain = good;
    plain.attributes = 0x10;
    let mut info_block = vec![0u8; 512];
    info_block[14..18].copy_from_slice(&0x1234_0010u32.to_le_bytes());
    let info = VBEInfo::parse(&info_block);
    assert_eq!(info.mode_list_address(), 0x12340 + 0x10);
    let best = info.get_best_mode(&vec![(0x101, good), (0x102, plain)]).unwrap();
    assert_eq!(
        best,
        VideoInfo { mode: 0x101, width: 800, height: 600, framebuffer: 0xFD00_0000, bytes_per_pixel: 4, bytes_per_line: 3200 }
    );
    assert_eq!(info.get_best_mode(&vec![(0x102, plain)]), None);
    assert_eq!(mode_number(0xFFFF), None);
    assert_eq!(mode_number(0x118), Some(0x118));
    assert_eq!(best.row_address((0, 2)), 0xFD00_0000 + 6400);
    assert_eq!(best.row_address((7, 0)), 0xFD00_0000);
}

#[test]
fn unreal_mode_gdt_and_memory_region() {
    let g = GDT::new();
    assert_eq!((g.empty, g.code, g.data), (0, 0xFFFF_000000_9A_0_0_0, 0xFFFF_000000_92_C_F_0));
    assert_eq!(g.pointer(0x500).length, 23);
    assert_eq!(MemoryRegion::default().length, 0);
}

#[test]
fn interrupt_controllers() {
    assert_eq!(InterruptIndex::Timer.as_u8(), PIC_1_OFFSET);
    assert_eq!(InterruptIndex::Keyboard.as_usize(), 33);
    let pics = Pics::new(PIC_1_OFFSET, PIC_2_OFFSET);
    let writes = pics.init(0xAB, 0xCD);
    assert_eq!(writes.len(), 18);
    assert_eq!(writes[4], (0x21, 32));
    assert_eq!(writes[17], (0xA1, 0xCD));
    assert_eq!(pics.end_of_interrupt(33), vec![0x20]);
    assert_eq!(pics.end_of_interrupt(41), vec![0xA0, 0x20]);
}

#[test]
fn heap_and_frames() {
    assert_eq!(heap_pages(), (HEAP_START, 256));
    let mut f = BootInfoFrameAllocator::new(vec![
        PhysRegion { start: 0x1800, end: 0x3000, usable: true },
        PhysRegion { start: 0x5000, end: 0x6000, usable: true },
    ]);
    assert_eq!(f.allocate_frame(), Some(0x1000));
    assert_eq!(f.allocate_frame(), Some(0x2000));
    assert_eq!(f.allocate_frame(), Some(0x5000));
    let s = f.stats();
    assert_eq!((s.total_frames, s.used_frames, s.free_frames), (3, 3, 0));
    assert_eq!(f.allocate_frame(), None);
    assert_eq!(f.stats().free_frames, 0);
}

#[test]
fn task_scheduler_round_robin() {
    let mut next = 1u64;
    let a = Process::new_kernel("a", 0x1000, 0x9000, 0, &mut next);
    let b = Process::new_user("b", 0x2000, 0x8000, 0, &mut next);
    assert_eq!(a.context, Context::new_kernel(0x1000, 0x9000));
    assert_eq!((b.context.cs, b.context.ss), (0x1b, 0x23));
    assert_eq!(Context::new().rflags, 0x202);
    let mut s = Scheduler::new();
    let pa = s.add_process(a);
    let pb = s.add_process(b);
    assert_eq!((pa, pb), (ProcessId(1), ProcessId(2)));
    assert_eq!(s.ready_count(), 2);
    assert!(!Switch::To { from: None, to: 0 }.switched());
    assert!(!Switch::Same.switched() && !Switch::Idle.switched());
    assert_eq!(s.schedule(), Switch::To { from: None, to: 0 });
    assert_eq!(s.schedule(), Switch::To { from: Some(0), to: 1 });
    assert!(s.schedule().switched());
    assert_eq!(s.current_process().unwrap().pid, pa);
    assert_eq!(s.block_current(), Switch::To { from: Some(0), to: 1 });
    assert_eq!(s.get_process(pa).unwrap().state, ProcessState::Blocked);
    assert_eq!(s.schedule(), Switch::Same);
    s.unblock(pa);
    assert_eq!(s.get_process(pa).unwrap().state, ProcessState::Ready);
    assert_eq!(s.terminate_current(), Switch::To { from: None, to: 0 });
    assert_eq!(s.process_count(), 2);
    assert_eq!(ProcessId::kernel(), ProcessId(0));
    let mut global = task_init();
    assert_eq!(tick(&mut global), Switch::Idle);
    assert_eq!(task_yield(&mut global), Switch::Idle);
    let mut none: Option<Scheduler> = None;
    assert_eq!(tick(&mut none), Switch::Idle);
}

#[test]
fn e820_steps() {
    assert_eq!(e820_step(0, SMAP, 24, 5), E820Step::Next { count: 1 });
    assert_eq!(e820_step(1, SMAP, 0, 5), E820Step::Next { count: 1 });
    assert_eq!(e820_step(3, SMAP, 24, 0), E820Step::Done { len: 3 });
    assert_eq!(e820_step(3, SMAP, 0, 0), E820Step::Done { len: 2 });
    assert_eq!(e820_step(2, 0x86, 24, 7), E820Step::Failed(0x86));
}

#[test]
fn file_load_reads_clusters_in_buffer_pieces() {
    let clusters = vec![(0x1000u64, 5000u32), (0x9000u64, 100u32)];
    let reads = load_file(&clusters, 2048);
    assert_eq!(
        reads,
        vec![
            FileRead { disk_offset: 0x1000, len: 2048, dst_offset: 0 },
            FileRead { disk_offset: 0x1800, len: 2048, dst_offset: 2048 },
            FileRead { disk_offset: 0x2000, len: 904, dst_offset: 4096 },
            FileRead { disk_offset: 0x9000, len: 100, dst_offset: 5000 },
        ]
    );
    assert!(load_file(&vec![], 512).is_empty());
    assert!(load_file(&vec![(0x200, 0)], 512).is_empty());
}

#[test]
fn disk_reader_seeks_and_buffers_fill() {
    let mut reader = DiskReader { disk_number: 0x80, base: 0x10_0000, offset: 7 };
    assert_eq!(reader.seek(SeekFrom::Start(4096)), 4096);
    assert_eq!((reader.disk_number, reader.base, reader.offset), (0x80, 0x10_0000, 4096));
    let mut buf = AlignedArrayBuffer::<4> { buffer: [1, 2, 3, 4] };
    assert_eq!(buf.slice(), &[1, 2, 3, 4]);
    buf.slice_mut()[2] = 9;
    assert_eq!(buf.buffer, [1, 2, 9, 4]);
}

#[test]
fn user_test_layout() {
    let plan = user_memory_plan();
    assert_eq!(plan.stack_first_page, 0x7F_C000);
    assert_eq!(plan.stack_pages, 4);
    assert_eq!(plan.stack_flags, 0x7);
    assert_eq!(plan.code_page, 0x40_0000);
    assert_eq!(plan.code_flags, 0x5);
    assert_eq!(test_program(), [0x90, 0x90, 0x90, 0x90, 0xEB, 0xFE]);
}

#[test]
fn interrupt_actions() {
    assert_eq!(interrupt_action(32), InterruptAction::Tick);
    assert_eq!(interrupt_action(33), InterruptAction::Keyboard);
    assert_eq!(interrupt_action(3), InterruptAction::Report);
    assert_eq!(interrupt_action(1), InterruptAction::Report);
    assert_eq!(interrupt_action(14), InterruptAction::Halt);
    assert_eq!(interrupt_action(8), InterruptAction::Halt);
    assert_eq!(interrupt_action(0), InterruptAction::Halt);
}

#[test]
fn second_stage_is_loaded_from_the_first_partition() {
    let entry = |lba: u32, sectors: u32| stage1::PartitionTableEntry { bootable: 0, partition_type: 0, lba, sectors };
    let parts = [entry(2048, 0x1_0040), entry(9000, 7), entry(0, 0), entry(0, 0)];
    let dap = stage1::second_stage_packet(&parts, 0x7E05);
    assert_eq!(dap.sectors, 0x40);
    assert_eq!(dap.lba, 2048);
    assert_eq!(dap.segment, 0x7E0);
    assert_eq!(dap.offset, 5);
    assert_eq!(dap.size, 0x10);
}
