use degreen::perms::{strip_execute, EXECUTE_BITS};

#[test]
fn execute_bits_are_owner_group_other() {
    assert_eq!(EXECUTE_BITS, 0o111);
    assert_eq!(EXECUTE_BITS, (1 << 0) | (1 << 3) | (1 << 6));
}

#[test]
fn strip_clears_the_three_execute_bits() {
    assert_eq!(strip_execute(0o755), 0o644);
    assert_eq!(strip_execute(0o777), 0o666);
    assert_eq!(strip_execute(0o111), 0o000);
    assert_eq!(strip_execute(0o100), 0o000);
    assert_eq!(strip_execute(0o010), 0o000);
    assert_eq!(strip_execute(0o001), 0o000);
}

#[test]
fn strip_leaves_a_mode_without_execute_bits_alone() {
    assert_eq!(strip_execute(0o644), 0o644);
    assert_eq!(strip_execute(0o600), 0o600);
    assert_eq!(strip_execute(0), 0);
}

#[test]
fn strip_keeps_setuid_setgid_sticky_and_file_type_bits() {
    assert_eq!(strip_execute(0o4755), 0o4644);
    assert_eq!(strip_execute(0o2755), 0o2644);
    assert_eq!(strip_execute(0o1777), 0o1666);
    assert_eq!(strip_execute(0o100755), 0o100644);
    assert_eq!(strip_execute(u32::MAX), u32::MAX & !0o111);
}

#[test]
fn strip_is_idempotent() {
    let modes = [0u32, 0o111, 0o644, 0o755, 0o777, 0o4755, 0o100755, 0xDEAD_BEEF, u32::MAX];
    for mode in modes {
        assert_eq!(strip_execute(strip_execute(mode)), strip_execute(mode));
    }
}

#[test]
fn strip_changes_only_bits_0_3_and_6() {
    let modes = [0u32, 0o111, 0o644, 0o755, 0o777, 0o4755, 0o100755, 0xDEAD_BEEF, u32::MAX];
    for mode in modes {
        let stripped = strip_execute(mode);
        for bit in 0..32u32 {
            let before = (mode >> bit) & 1;
            let after = (stripped >> bit) & 1;
            if bit == 0 || bit == 3 || bit == 6 {
                assert_eq!(after, 0, "bit {} of {:o}", bit, mode);
            } else {
                assert_eq!(after, before, "bit {} of {:o}", bit, mode);
            }
        }
    }
}

#[test]
fn strip_never_sets_a_bit() {
    let modes = [0u32, 0o111, 0o644, 0o755, 0o777, 0o4755, 0xDEAD_BEEF, u32::MAX];
    for mode in modes {
        assert_eq!(strip_execute(mode) & !mode, 0);
    }
}
