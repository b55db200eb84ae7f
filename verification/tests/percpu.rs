use percpu::align_up_64;
use percpu::area::PerCpuArea;
use percpu::reg::{Arch, PerCpuReg};

/// Region bytes for `max_cpu_num` CPUs: the template area (CPU 0) holds
/// `t(offset)` in each of its first `area_size` bytes, everything else holds
/// the marker `0xee`.
fn region_with_template(area_size: usize, max_cpu_num: usize, t: fn(usize) -> u8) -> Vec<u8> {
    let stride = align_up_64(area_size);
    let mut data = vec![0xee_u8; stride * max_cpu_num];
    for off in 0..area_size {
        data[off] = t(off);
    }
    data
}

fn template_byte(off: usize) -> u8 {
    (off as u8).wrapping_mul(31).wrapping_add(7)
}

#[test]
fn align_up_64_exact_values() {
    assert_eq!(align_up_64(0), 0);
    assert_eq!(align_up_64(1), 64);
    assert_eq!(align_up_64(63), 64);
    assert_eq!(align_up_64(64), 64);
    assert_eq!(align_up_64(65), 128);
    assert_eq!(align_up_64(100), 128);
    assert_eq!(align_up_64(usize::MAX - 63), usize::MAX - 63);
}

#[test]
fn align_up_64_is_aligned_and_not_below() {
    for x in 0..1000_usize {
        let r = align_up_64(x);
        assert_eq!(r % 64, 0);
        assert!(r >= x);
        assert!(r < x + 64);
        assert_eq!(align_up_64(r), r);
    }
}

#[test]
fn area_bases_are_distinct_and_disjoint() {
    let data = region_with_template(100, 4, template_byte);
    let a = PerCpuArea::new(0x1000, 100, 4, data).unwrap();
    for c1 in 0..4 {
        for c2 in 0..4 {
            if c1 != c2 {
                let b1 = a.percpu_area_base(c1);
                let b2 = a.percpu_area_base(c2);
                assert_ne!(b1, b2);
                assert!(b1 + 100 <= b2 || b2 + 100 <= b1);
            }
        }
    }
}

#[test]
fn scenario_four_cpus_size_100() {
    let data = region_with_template(100, 4, template_byte);
    let mut a = PerCpuArea::new(0x1000, 100, 4, data).unwrap();
    assert_eq!(align_up_64(a.percpu_area_size()), 128);
    assert_eq!(a.percpu_area_base(2) - a.percpu_area_base(0), 256);
    a.init();
    for cpu in 1..4 {
        for off in 0..100 {
            assert_eq!(a.byte_at(cpu, off), template_byte(off));
        }
    }
}

#[test]
fn init_replicates_template_and_keeps_it() {
    let data = region_with_template(65, 3, template_byte);
    let mut a = PerCpuArea::new(64, 65, 3, data).unwrap();
    assert!(!a.is_initialized());
    a.init();
    assert!(a.is_initialized());
    for cpu in 0..3 {
        for off in 0..65 {
            assert_eq!(a.byte_at(cpu, off), template_byte(off));
        }
    }
}

#[test]
fn init_leaves_padding_bytes_alone() {
    let data = region_with_template(100, 4, template_byte);
    let mut a = PerCpuArea::new(0, 100, 4, data).unwrap();
    a.init();
    for cpu in 0..4 {
        for k in 100..128 {
            assert_eq!(a.region_byte(cpu * 128 + k), 0xee);
        }
    }
}

#[test]
fn second_init_is_idempotent() {
    let data = region_with_template(100, 4, template_byte);
    let mut a = PerCpuArea::new(0x1000, 100, 4, data).unwrap();
    a.init();
    let snapshot: Vec<u8> = (0..4 * 128).map(|k| a.region_byte(k)).collect();
    a.init();
    let after: Vec<u8> = (0..4 * 128).map(|k| a.region_byte(k)).collect();
    assert_eq!(snapshot, after);
}

#[test]
fn racing_callers_one_replication_same_final_state() {
    // Two bring-up callers hit init in turn; the flag lets exactly the first
    // one replicate, and the final bytes match a single sequential call.
    let data = region_with_template(100, 4, template_byte);
    let mut shared = PerCpuArea::new(0x1000, 100, 4, data).unwrap();
    assert!(!shared.is_initialized());
    shared.init(); // caller A wins and replicates
    assert!(shared.is_initialized());
    let after_winner: Vec<u8> = (0..4 * 128).map(|k| shared.region_byte(k)).collect();
    shared.init(); // caller B loses and returns with nothing changed
    let after_loser: Vec<u8> = (0..4 * 128).map(|k| shared.region_byte(k)).collect();
    assert_eq!(after_winner, after_loser);

    let data_seq = region_with_template(100, 4, template_byte);
    let mut sequential = PerCpuArea::new(0x1000, 100, 4, data_seq).unwrap();
    sequential.init();
    let single: Vec<u8> = (0..4 * 128).map(|k| sequential.region_byte(k)).collect();
    assert_eq!(after_loser, single);
}

#[test]
fn bind_register_then_read_returns_area_base() {
    let data = region_with_template(100, 4, template_byte);
    let a = PerCpuArea::new(0x1000, 100, 4, data).unwrap();
    let arches = [Arch::X86_64, Arch::Riscv, Arch::Aarch64El1, Arch::Aarch64El2];
    for (cpu, arch) in arches.into_iter().enumerate() {
        let mut reg = PerCpuReg::new(arch);
        assert_eq!(reg.read_percpu_reg(), 0);
        reg.init_percpu_reg(&a, cpu);
        assert_eq!(reg.read_percpu_reg(), a.percpu_area_base(cpu));
        assert_eq!(reg.read_percpu_reg(), 0x1000 + cpu * 128);
    }
}

#[test]
fn rebinding_reassigns_the_register() {
    let data = region_with_template(100, 4, template_byte);
    let a = PerCpuArea::new(0x1000, 100, 4, data).unwrap();
    let mut reg = PerCpuReg::new(Arch::X86_64);
    reg.init_percpu_reg(&a, 1);
    reg.init_percpu_reg(&a, 3);
    assert_eq!(reg.read_percpu_reg(), a.percpu_area_base(3));
}

#[test]
fn single_cpu_init_copies_nothing() {
    let data = region_with_template(100, 1, template_byte);
    let mut a = PerCpuArea::new(0, 100, 1, data).unwrap();
    a.init();
    for off in 0..100 {
        assert_eq!(a.byte_at(0, off), template_byte(off));
    }
}

#[test]
fn empty_image_init_is_a_no_op() {
    let mut a = PerCpuArea::new(0x1000, 0, 8, Vec::new()).unwrap();
    assert_eq!(a.percpu_area_size(), 0);
    assert_eq!(a.percpu_area_base(7), 0x1000);
    a.init();
    assert!(a.is_initialized());
}

#[test]
fn misconfigured_layouts_are_refused() {
    // No CPU at all.
    assert!(PerCpuArea::new(0, 100, 0, vec![0; 128]).is_none());
    // Region bytes do not cover one stride per CPU.
    assert!(PerCpuArea::new(0, 100, 4, vec![0; 100 * 4]).is_none());
    // Image so large that padding it to the alignment overflows.
    assert!(PerCpuArea::new(0, usize::MAX - 62, 1, Vec::new()).is_none());
    // Total region size overflows the address space.
    assert!(PerCpuArea::new(0, usize::MAX - 63, 2, Vec::new()).is_none());
    // Region would run past the end of the address space.
    assert!(PerCpuArea::new(usize::MAX - 100, 100, 4, vec![0; 512]).is_none());
}

#[test]
fn zeroed_region_starts_blank_and_initializes() {
    let mut a = PerCpuArea::new_zeroed(0x2000, 100, 4).unwrap();
    assert_eq!(a.max_cpu_num(), 4);
    for cpu in 0..4 {
        for off in 0..100 {
            assert_eq!(a.byte_at(cpu, off), 0);
        }
    }
    a.init();
    for cpu in 0..4 {
        for off in 0..100 {
            assert_eq!(a.byte_at(cpu, off), 0);
        }
    }
    assert!(PerCpuArea::new_zeroed(usize::MAX, 100, 4).is_none());
}
