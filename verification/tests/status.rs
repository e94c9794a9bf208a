use mos6502::cpu_status::CpuStatus;

#[test]
fn test_clear_status() {
    let mut status: CpuStatus = CpuStatus::new();
    status.set(0xff);
    status.clear(CpuStatus::CARRY);
    assert_eq!(status.get(), 0xfe);
}

#[test]
fn test_set_status() {
    let mut status: CpuStatus = CpuStatus::new();

    status.set(CpuStatus::CARRY | CpuStatus::NEGATIVE);
    assert_eq!(status.get(), 0x81);
}

#[test]
fn test_set_returns_new_value() {
    let mut status: CpuStatus = CpuStatus::new();
    assert_eq!(status.set(CpuStatus::ZERO), 0x02);
    assert_eq!(status.clear(CpuStatus::ZERO), 0x00);
}

#[test]
fn test_is_set_requires_every_masked_bit() {
    let mut status: CpuStatus = CpuStatus::new();
    status.set(CpuStatus::CARRY);
    assert!(status.is_set(CpuStatus::CARRY));
    assert!(!status.is_set(CpuStatus::CARRY | CpuStatus::ZERO));
    assert!(!status.is_set(CpuStatus::NEGATIVE));
}
