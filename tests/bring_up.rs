use dual_core_boot::clock::{
    setup_memory_wait_states, step, wait_for_pll_lock, ClockError, Phase,
};
use dual_core_boot::cores::CoreRole;
use dual_core_boot::registers::{next_lock_state, Field, RegisterBank, WdtLock, Write};
use dual_core_boot::{clock_init, enable_cm4, get_core_frequency, lock_wdt, unlock_wdt};

fn w(field: Field, value: u32) -> Write {
    Write { field, value }
}

fn position(log: &[Write], field: Field) -> Option<usize> {
    log.iter().position(|x| x.field == field)
}

#[test]
fn unlock_writes_both_tokens_in_order() {
    let mut bank = RegisterBank::new(None);
    unlock_wdt(&mut bank);
    assert_eq!(bank.writes(), vec![w(Field::WdtLock, 1), w(Field::WdtLock, 2)]);
    assert_eq!(bank.wdt_state(), WdtLock::Unlocked);
    lock_wdt(&mut bank);
    assert_eq!(bank.wdt_state(), WdtLock::Locked);
    assert_eq!(bank.writes().len(), 3);
}

#[test]
fn tokens_in_wrong_order_leave_watchdog_locked() {
    let mut bank = RegisterBank::new(None);
    bank.write(w(Field::WdtLock, 2));
    bank.write(w(Field::WdtLock, 1));
    assert_ne!(bank.wdt_state(), WdtLock::Unlocked);
    bank.write(w(Field::WdtEnable, 0));
    assert_eq!(bank.value(Field::WdtEnable), None);
}

#[test]
fn single_first_token_does_not_unlock() {
    let mut bank = RegisterBank::new(None);
    bank.write(w(Field::WdtLock, 1));
    assert_eq!(bank.wdt_state(), WdtLock::FirstToken);
    bank.write(w(Field::Ilo0Enable, 1));
    assert_eq!(bank.value(Field::Ilo0Enable), None);
}

#[test]
fn every_two_token_pair_but_one_leaves_lock_closed() {
    for a in 0u32..5 {
        for b in 0u32..5 {
            let s = next_lock_state(next_lock_state(WdtLock::Locked, a), b);
            assert_eq!(s == WdtLock::Unlocked, a == 1 && b == 2, "tokens {} {}", a, b);
        }
    }
}

#[test]
fn protected_write_only_between_unlock_and_lock() {
    let mut bank = RegisterBank::new(None);
    unlock_wdt(&mut bank);
    bank.write(w(Field::WdtEnable, 0));
    lock_wdt(&mut bank);
    bank.write(w(Field::WdtEnable, 1));
    assert_eq!(bank.value(Field::WdtEnable), Some(0));
}

#[test]
fn wait_states_slow_then_fast_for_each_region() {
    let mut bank = RegisterBank::new(None);
    setup_memory_wait_states(&mut bank);
    assert_eq!(
        bank.writes(),
        vec![
            w(Field::RomSlowWs, 1),
            w(Field::RomFastWs, 0),
            w(Field::Ram0SlowWs, 1),
            w(Field::Ram0FastWs, 0),
            w(Field::Ram1SlowWs, 1),
            w(Field::Ram1FastWs, 0),
            w(Field::FlashMainWs, 1),
        ]
    );
}

#[test]
fn pll_enable_follows_watchdog_disable_and_wait_states() {
    let mut bank = RegisterBank::new(Some(2));
    assert_eq!(clock_init(&mut bank, 100), Ok(()));
    let log = bank.writes();
    let pll = position(&log, Field::PllConfig0).unwrap();
    assert_eq!(log.iter().filter(|x| x.field == Field::PllConfig0).count(), 1);
    assert!(position(&log, Field::WdtEnable).unwrap() < pll);
    for f in [
        Field::RomSlowWs,
        Field::RomFastWs,
        Field::Ram0SlowWs,
        Field::Ram0FastWs,
        Field::Ram1SlowWs,
        Field::Ram1FastWs,
        Field::FlashMainWs,
    ] {
        assert!(position(&log, f).unwrap() < pll);
    }
    assert_eq!(log[pll].value, 0x8002_0128);
}

#[test]
fn lock_wait_ends_on_first_read_when_already_locked() {
    let mut bank = RegisterBank::new(Some(0));
    assert!(wait_for_pll_lock(&mut bank, 10));
    assert_eq!(bank.polls(), 1);
}

#[test]
fn lock_wait_ends_on_second_read() {
    let mut bank = RegisterBank::new(Some(1));
    assert!(wait_for_pll_lock(&mut bank, 10));
    assert_eq!(bank.polls(), 2);
}

#[test]
fn lock_wait_ends_after_many_reads() {
    let mut bank = RegisterBank::new(Some(500));
    assert!(wait_for_pll_lock(&mut bank, 1000));
    assert_eq!(bank.polls(), 501);
    assert!(bank.writes().is_empty());
}

#[test]
fn lock_wait_gives_up_when_lock_comes_too_late() {
    let mut bank = RegisterBank::new(Some(10));
    assert!(!wait_for_pll_lock(&mut bank, 10));
    assert_eq!(bank.polls(), 10);
    assert!(bank.read_pll_locked());
}

#[test]
fn lock_wait_with_no_budget_reads_nothing() {
    let mut bank = RegisterBank::new(Some(0));
    assert!(!wait_for_pll_lock(&mut bank, 0));
    assert_eq!(bank.polls(), 0);
}

#[test]
fn core_frequency_per_role_is_stable() {
    assert_eq!(get_core_frequency(CoreRole::Cm4), 160_000_000);
    assert_eq!(get_core_frequency(CoreRole::Cm4), get_core_frequency(CoreRole::Cm4));
    assert_eq!(get_core_frequency(CoreRole::Cm0), 80_000_000);
    assert_eq!(get_core_frequency(CoreRole::Cm0), get_core_frequency(CoreRole::Cm0));
}

#[test]
fn launcher_writes_vector_table_before_power() {
    let mut bank = RegisterBank::new(None);
    enable_cm4(&mut bank);
    assert_eq!(
        bank.writes(),
        vec![w(Field::Cm4VectorTableBase, 0x1000_8000), w(Field::Cm4PwrCtl, 0x05fa_0003)]
    );
}

#[test]
fn full_init_from_reset_defaults() {
    let mut bank = RegisterBank::new(Some(3));
    for f in [Field::WdtEnable, Field::RootSelect0, Field::RomSlowWs] {
        assert_eq!(bank.value(f), None);
    }
    assert_eq!(clock_init(&mut bank, 1_000), Ok(()));
    assert_eq!(bank.polls(), 4);
    assert_eq!(bank.wdt_state(), WdtLock::Locked);
    assert_eq!(bank.value(Field::WdtEnable), Some(0));
    assert_eq!(bank.value(Field::Ilo0Enable), Some(1));
    assert_eq!(bank.value(Field::Ilo0Backup), Some(1));
    assert_eq!(bank.value(Field::RootSelect0), Some(0x8000_0001));
    assert_eq!(bank.value(Field::RootSelect1), Some(0x8000_0011));
    assert_eq!(bank.value(Field::PllConfig0), Some(0x8002_0128));
    assert_eq!(bank.value(Field::RomSlowWs), Some(1));
    assert_eq!(bank.value(Field::RomFastWs), Some(0));
    assert_eq!(bank.value(Field::Ram0SlowWs), Some(1));
    assert_eq!(bank.value(Field::Ram0FastWs), Some(0));
    assert_eq!(bank.value(Field::Ram1SlowWs), Some(1));
    assert_eq!(bank.value(Field::Ram1FastWs), Some(0));
    assert_eq!(bank.value(Field::FlashMainWs), Some(1));
    assert_eq!(bank.writes().len(), 24);
}

#[test]
fn init_does_not_complete_when_pll_never_locks() {
    let mut bank = RegisterBank::new(None);
    assert_eq!(clock_init(&mut bank, 10_000), Err(ClockError::PllLockTimeout));
    assert_eq!(bank.polls(), 10_000);
    let log = bank.writes();
    assert_eq!(log.last(), Some(&w(Field::PllConfig0, 0x8002_0128)));
    assert_eq!(position(&log, Field::RootSelect0), None);
    assert_eq!(bank.value(Field::Ilo0Enable), None);
}

#[test]
fn stage_machine_issues_the_init_sequence() {
    let mut reference = RegisterBank::new(Some(2));
    assert_eq!(clock_init(&mut reference, 100), Ok(()));

    let mut bank = RegisterBank::new(Some(2));
    let mut phase = Phase::Reset;
    let mut steps = 0;
    while phase != Phase::BackupOscEnabled {
        let locked = phase == Phase::PllConfiguring && bank.read_pll_locked();
        let (next, ws) = step(phase, locked);
        for x in ws {
            bank.write(x);
        }
        phase = next;
        steps += 1;
        assert!(steps < 100);
    }
    assert_eq!(bank.writes(), reference.writes());
    assert_eq!(bank.polls(), 3);
}

#[test]
fn stage_machine_waits_in_pll_stage_until_locked() {
    let (next, ws) = step(Phase::PllConfiguring, false);
    assert_eq!(next, Phase::PllConfiguring);
    assert!(ws.is_empty());
    let (next, ws) = step(Phase::PllConfiguring, true);
    assert_eq!(next, Phase::PllLocked);
    assert!(ws.is_empty());
    let (next, ws) = step(Phase::BackupOscEnabled, true);
    assert_eq!(next, Phase::BackupOscEnabled);
    assert!(ws.is_empty());
}

#[test]
fn three_token_sequences_open_only_after_adjacent_pair() {
    for a in 0u32..5 {
        for b in 0u32..5 {
            for c in 0u32..5 {
                let mut bank = RegisterBank::new(None);
                for t in [a, b, c] {
                    bank.write(w(Field::WdtLock, t));
                }
                let ts = [a, b, c];
                let pair = (0..2).any(|j| {
                    ts[j] == 1 && ts[j + 1] == 2 && ts[j + 2..].iter().all(|&t| t != 3)
                });
                assert_eq!(bank.wdt_state() == WdtLock::Unlocked, pair, "tokens {:?}", ts);
            }
        }
    }
}
