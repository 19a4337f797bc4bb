use vstd::prelude::*;
use crate::registers::{
    Field, Write, WdtLock, RegisterBank, pll_locked_at, lock_state, lock_step, field_value,
    is_protected,
};
use crate::watchdog::{unlock_writes, lock_writes, unlock_wdt, lock_wdt};

verus! {

/// Wait states for the slow and fast clock domains of each memory region.
pub const ROM_SLOW_WS: u32 = 1;

pub const ROM_FAST_WS: u32 = 0;

pub const RAM_SLOW_WS: u32 = 1;

pub const RAM_FAST_WS: u32 = 0;

pub const FLASH_MAIN_WS: u32 = 1;

/// Low-frequency clock source selector.
pub const LFCLK_SOURCE: u32 = 0;

/// Integer divider of the fast (application core) clock domain, encoded as divisor minus one.
pub const CM4_FAST_INT_DIV: u32 = 0;

/// Clock control of the real-time core's domains: peripheral clock divided by two.
pub const CM0_CLOCK_CTL: u32 = 0x0100_0000;

/// Source selector of the PLL's reference path and of the second path.
pub const PATH_SOURCE: u32 = 0;

/// PLL 0: feedback divider 40, reference divider 1, output divider 2, enabled.
pub const PLL0_CONFIG: u32 = 0x8002_0128;

/// Clock root HF0: enabled, PLL 0 as source, no division.
pub const ROOT0_SELECT: u32 = 0x8000_0001;

/// Clock root HF1: enabled, PLL 0 as source, divided by two.
pub const ROOT1_SELECT: u32 = 0x8000_0011;

/// Why clock initialisation stopped before the clock tree was routed.
#[derive(Clone, Copy, Debug, PartialEq, Eq, Structural)]
pub enum ClockError {
    /// The PLL did not report lock within the allowed number of status reads.
    PllLockTimeout,
}

/// The stages of clock-tree initialisation, in the order they are passed.
#[derive(Clone, Copy, Debug, PartialEq, Eq, Structural)]
pub enum Phase {
    Reset,
    WatchdogDisabled,
    WaitStatesSet,
    PllConfiguring,
    PllLocked,
    RootsRouted,
    BackupOscEnabled,
}

/// Wait-state writes: for each region its slow value, then its fast value.
pub open spec fn wait_state_writes() -> Seq<Write> {
    seq![
        Write { field: Field::RomSlowWs, value: ROM_SLOW_WS },
        Write { field: Field::RomFastWs, value: ROM_FAST_WS },
        Write { field: Field::Ram0SlowWs, value: RAM_SLOW_WS },
        Write { field: Field::Ram0FastWs, value: RAM_FAST_WS },
        Write { field: Field::Ram1SlowWs, value: RAM_SLOW_WS },
        Write { field: Field::Ram1FastWs, value: RAM_FAST_WS },
        Write { field: Field::FlashMainWs, value: FLASH_MAIN_WS },
    ]
}

/// Source select, core dividers, PLL reference path, then the PLL itself.
pub open spec fn pll_setup_writes() -> Seq<Write> {
    seq![
        Write { field: Field::LfclkSel, value: LFCLK_SOURCE },
        Write { field: Field::Cm4FastIntDiv, value: CM4_FAST_INT_DIV },
        Write { field: Field::Cm0ClockCtl, value: CM0_CLOCK_CTL },
        Write { field: Field::PathMux1, value: PATH_SOURCE },
        Write { field: Field::PllConfig0, value: PLL0_CONFIG },
    ]
}

/// Second path source, then both clock roots.
pub open spec fn root_writes() -> Seq<Write> {
    seq![
        Write { field: Field::PathMux2, value: PATH_SOURCE },
        Write { field: Field::RootSelect0, value: ROOT0_SELECT },
        Write { field: Field::RootSelect1, value: ROOT1_SELECT },
    ]
}

pub open spec fn watchdog_disable_writes() -> Seq<Write> {
    unlock_writes() + seq![Write { field: Field::WdtEnable, value: 0 }] + lock_writes()
}

pub open spec fn backup_osc_writes() -> Seq<Write> {
    unlock_writes() + seq![
        Write { field: Field::Ilo0Enable, value: 1 },
        Write { field: Field::Ilo0Backup, value: 1 },
    ] + lock_writes()
}

/// The writes issued when leaving `p`.
pub open spec fn phase_writes(p: Phase) -> Seq<Write> {
    match p {
        Phase::Reset => watchdog_disable_writes(),
        Phase::WatchdogDisabled => wait_state_writes(),
        Phase::WaitStatesSet => pll_setup_writes(),
        Phase::PllLocked => root_writes(),
        Phase::RootsRouted => backup_osc_writes(),
        _ => Seq::empty(),
    }
}

/// The stage that follows `p`; the PLL stage is left only once lock is seen.
pub open spec fn next_phase(p: Phase, pll_locked: bool) -> Phase {
    match p {
        Phase::Reset => Phase::WatchdogDisabled,
        Phase::WatchdogDisabled => Phase::WaitStatesSet,
        Phase::WaitStatesSet => Phase::PllConfiguring,
        Phase::PllConfiguring => if pll_locked {
            Phase::PllLocked
        } else {
            Phase::PllConfiguring
        },
        Phase::PllLocked => Phase::RootsRouted,
        Phase::RootsRouted => Phase::BackupOscEnabled,
        Phase::BackupOscEnabled => Phase::BackupOscEnabled,
    }
}

/// Everything issued before the lock wait.
pub open spec fn init_prefix() -> Seq<Write> {
    phase_writes(Phase::Reset) + phase_writes(Phase::WatchdogDisabled) + phase_writes(
        Phase::WaitStatesSet,
    )
}

/// The full initialisation sequence.
pub open spec fn init_writes() -> Seq<Write> {
    init_prefix() + phase_writes(Phase::PllLocked) + phase_writes(Phase::RootsRouted)
}

/// The number of the first status read, from read `start` on, that finds the PLL locked.
pub open spec fn first_lock_read(locks_after: Option<u64>, start: nat) -> Option<nat> {
    match locks_after {
        Some(n) => Some(if n >= start { n as nat } else { start }),
        None => None,
    }
}

/// Whether lock is seen within `budget` reads starting at read `start`.
pub open spec fn locks_within(locks_after: Option<u64>, start: nat, budget: nat) -> bool {
    match first_lock_read(locks_after, start) {
        Some(k) => k < start + budget,
        None => false,
    }
}

/// The read count after waiting for lock with `budget` reads starting at read `start`.
pub open spec fn polls_after_wait(locks_after: Option<u64>, start: nat, budget: nat) -> nat {
    if locks_within(locks_after, start, budget) {
        first_lock_read(locks_after, start)->0 + 1
    } else {
        start + budget
    }
}

/// Executable form of the stage table: the next stage and the writes to issue.
pub fn step(p: Phase, pll_locked: bool) -> (r: (Phase, Vec<Write>))
    ensures
        r.0 == next_phase(p, pll_locked),
        r.1@ == (if r.0 != p { phase_writes(p) } else { Seq::empty() }),
{
    let r = match p {
        Phase::Reset => (
            Phase::WatchdogDisabled,
            vec![
                Write { field: Field::WdtLock, value: crate::registers::UNLOCK_TOKEN_FIRST },
                Write { field: Field::WdtLock, value: crate::registers::UNLOCK_TOKEN_SECOND },
                Write { field: Field::WdtEnable, value: 0 },
                Write { field: Field::WdtLock, value: crate::registers::LOCK_TOKEN },
            ],
        ),
        Phase::WatchdogDisabled => (Phase::WaitStatesSet, wait_state_sequence()),
        Phase::WaitStatesSet => (
            Phase::PllConfiguring,
            vec![
                Write { field: Field::LfclkSel, value: LFCLK_SOURCE },
                Write { field: Field::Cm4FastIntDiv, value: CM4_FAST_INT_DIV },
                Write { field: Field::Cm0ClockCtl, value: CM0_CLOCK_CTL },
                Write { field: Field::PathMux1, value: PATH_SOURCE },
                Write { field: Field::PllConfig0, value: PLL0_CONFIG },
            ],
        ),
        Phase::PllConfiguring => if pll_locked {
            (Phase::PllLocked, Vec::new())
        } else {
            (Phase::PllConfiguring, Vec::new())
        },
        Phase::PllLocked => (
            Phase::RootsRouted,
            vec![
                Write { field: Field::PathMux2, value: PATH_SOURCE },
                Write { field: Field::RootSelect0, value: ROOT0_SELECT },
                Write { field: Field::RootSelect1, value: ROOT1_SELECT },
            ],
        ),
        Phase::RootsRouted => (
            Phase::BackupOscEnabled,
            vec![
                Write { field: Field::WdtLock, value: crate::registers::UNLOCK_TOKEN_FIRST },
                Write { field: Field::WdtLock, value: crate::registers::UNLOCK_TOKEN_SECOND },
                Write { field: Field::Ilo0Enable, value: 1 },
                Write { field: Field::Ilo0Backup, value: 1 },
                Write { field: Field::WdtLock, value: crate::registers::LOCK_TOKEN },
            ],
        ),
        Phase::BackupOscEnabled => (Phase::BackupOscEnabled, Vec::new()),
    };
    assert(r.1@ =~= (if r.0 != p { phase_writes(p) } else { Seq::empty() }));
    r
}

fn wait_state_sequence() -> (r: Vec<Write>)
    ensures
        r@ == wait_state_writes(),
{
    let r = vec![
        Write { field: Field::RomSlowWs, value: ROM_SLOW_WS },
        Write { field: Field::RomFastWs, value: ROM_FAST_WS },
        Write { field: Field::Ram0SlowWs, value: RAM_SLOW_WS },
        Write { field: Field::Ram0FastWs, value: RAM_FAST_WS },
        Write { field: Field::Ram1SlowWs, value: RAM_SLOW_WS },
        Write { field: Field::Ram1FastWs, value: RAM_FAST_WS },
        Write { field: Field::FlashMainWs, value: FLASH_MAIN_WS },
    ];
    assert(r@ =~= wait_state_writes());
    r
}

/// Programs the wait states of ROM, both RAM banks and flash for the target frequency.
pub fn setup_memory_wait_states(bank: &mut RegisterBank)
    ensures
        final(bank)@.log == old(bank)@.log + wait_state_writes(),
        final(bank)@.polls == old(bank)@.polls,
        final(bank)@.locks_after == old(bank)@.locks_after,
{
    let ws = wait_state_sequence();
    bank.write_all(&ws);
}

/// Polls the PLL lock-status flag until it reads set, at most `max_polls` times.
/// Returns whether lock was seen; the last read made is the first that found it set.
pub fn wait_for_pll_lock(bank: &mut RegisterBank, max_polls: u64) -> (r: bool)
    requires
        old(bank)@.polls + max_polls <= u64::MAX,
    ensures
        r == locks_within(old(bank)@.locks_after, old(bank)@.polls, max_polls as nat),
        final(bank)@.polls == polls_after_wait(
            old(bank)@.locks_after,
            old(bank)@.polls,
            max_polls as nat,
        ),
        forall|k: nat|
            old(bank)@.polls <= k < final(bank)@.polls - 1 ==> !pll_locked_at(
                old(bank)@.locks_after,
                k,
            ),
        r ==> pll_locked_at(old(bank)@.locks_after, (final(bank)@.polls - 1) as nat),
        final(bank)@.log == old(bank)@.log,
        final(bank)@.locks_after == old(bank)@.locks_after,
{
    let ghost start = old(bank)@;
    let mut i: u64 = 0;
    while i < max_polls
        invariant
            start == old(bank)@,
            start.polls + max_polls <= u64::MAX,
            i <= max_polls,
            bank@.polls == start.polls + i,
            bank@.log == start.log,
            bank@.locks_after == start.locks_after,
            forall|k: nat| start.polls <= k < start.polls + i ==> !pll_locked_at(start.locks_after, k),
        decreases max_polls - i,
    {
        let locked = bank.read_pll_locked();
        if locked {
            proof {
                assert(pll_locked_at(start.locks_after, (start.polls + i) as nat));
                if i > 0 {
                    assert(!pll_locked_at(start.locks_after, start.polls));
                    assert(!pll_locked_at(start.locks_after, (start.polls + i - 1) as nat));
                }
                assert(first_lock_read(start.locks_after, start.polls) == Some(
                    (start.polls + i) as nat,
                ));
                assert(locks_within(start.locks_after, start.polls, max_polls as nat));
            }
            return true;
        }
        i += 1;
    }
    proof {
        if let Some(k) = first_lock_read(start.locks_after, start.polls) {
            if k < start.polls + max_polls {
                assert(pll_locked_at(start.locks_after, k));
            }
        }
    }
    false
}

/// Initialise all clocks: disable the watchdog, set wait states, configure and
/// lock the PLL, route it to both clock roots and enable the backup oscillator.
/// The lock wait reads the status flag at most `max_polls` times.
pub fn clock_init(bank: &mut RegisterBank, max_polls: u64) -> (r: Result<(), ClockError>)
    requires
        old(bank)@.polls + max_polls <= u64::MAX,
    ensures
        r is Ok <==> locks_within(old(bank)@.locks_after, old(bank)@.polls, max_polls as nat),
        r is Ok ==> final(bank)@.log == old(bank)@.log + init_writes(),
        r is Ok ==> clock_tree_ready(final(bank)@.log),
        r is Err ==> r == Err::<(), ClockError>(ClockError::PllLockTimeout) && final(bank)@.log
            == old(bank)@.log + init_prefix(),
        final(bank)@.polls == polls_after_wait(
            old(bank)@.locks_after,
            old(bank)@.polls,
            max_polls as nat,
        ),
        final(bank)@.locks_after == old(bank)@.locks_after,
{
    let ghost start = bank@.log;
    // Keep the watchdog from resetting the device while the PLL settles.
    unlock_wdt(bank);
    bank.write(Write { field: Field::WdtEnable, value: 0 });
    lock_wdt(bank);
    // Wait states must be raised before the frequency is.
    setup_memory_wait_states(bank);
    bank.write(Write { field: Field::LfclkSel, value: LFCLK_SOURCE });
    bank.write(Write { field: Field::Cm4FastIntDiv, value: CM4_FAST_INT_DIV });
    bank.write(Write { field: Field::Cm0ClockCtl, value: CM0_CLOCK_CTL });
    bank.write(Write { field: Field::PathMux1, value: PATH_SOURCE });
    bank.write(Write { field: Field::PllConfig0, value: PLL0_CONFIG });
    let ghost prefix_log = bank@.log;
    assert(prefix_log =~= start + init_prefix());
    if !wait_for_pll_lock(bank, max_polls) {
        return Err(ClockError::PllLockTimeout);
    }
    bank.write(Write { field: Field::PathMux2, value: PATH_SOURCE });
    bank.write(Write { field: Field::RootSelect0, value: ROOT0_SELECT });
    bank.write(Write { field: Field::RootSelect1, value: ROOT1_SELECT });
    unlock_wdt(bank);
    bank.write(Write { field: Field::Ilo0Enable, value: 1 });
    bank.write(Write { field: Field::Ilo0Backup, value: 1 });
    lock_wdt(bank);
    assert(bank@.log =~= start + init_writes());
    proof {
        lemma_init_makes_clock_tree_ready(start);
    }
    Ok(())
}

} // verus!

verus! {

/// `f` is written at index `i` of `ws` and nowhere else.
pub open spec fn written_once_at(ws: Seq<Write>, f: Field, i: int) -> bool {
    0 <= i < ws.len() && ws[i].field == f && forall|j: int|
        0 <= j < ws.len() && j != i ==> ws[j].field != f
}

/// `slow` and `fast` are each written exactly once in `ws`, `slow` first.
pub open spec fn written_once_in_order(ws: Seq<Write>, slow: Field, fast: Field) -> bool {
    exists|i: int, j: int| i < j && written_once_at(ws, slow, i) && written_once_at(ws, fast, j)
}

/// The wait-state writes set each region's slow value exactly once and its fast
/// value exactly once, slow before fast, and flash's main value exactly once.
pub proof fn lemma_wait_states_once_each_slow_first()
    ensures
        written_once_in_order(wait_state_writes(), Field::RomSlowWs, Field::RomFastWs),
        written_once_in_order(wait_state_writes(), Field::Ram0SlowWs, Field::Ram0FastWs),
        written_once_in_order(wait_state_writes(), Field::Ram1SlowWs, Field::Ram1FastWs),
        exists|i: int| written_once_at(wait_state_writes(), Field::FlashMainWs, i),
{
    let ws = wait_state_writes();
    assert(written_once_at(ws, Field::RomSlowWs, 0));
    assert(written_once_at(ws, Field::RomFastWs, 1));
    assert(written_once_at(ws, Field::Ram0SlowWs, 2));
    assert(written_once_at(ws, Field::Ram0FastWs, 3));
    assert(written_once_at(ws, Field::Ram1SlowWs, 4));
    assert(written_once_at(ws, Field::Ram1FastWs, 5));
    assert(written_once_at(ws, Field::FlashMainWs, 6));
}

pub open spec fn is_wait_state_field(f: Field) -> bool {
    f == Field::RomSlowWs || f == Field::RomFastWs || f == Field::Ram0SlowWs || f
        == Field::Ram0FastWs || f == Field::Ram1SlowWs || f == Field::Ram1FastWs || f
        == Field::FlashMainWs
}

/// Index `j` of `ws` starts the unlock tokens immediately followed by the
/// write that disables the watchdog.
pub open spec fn watchdog_disabled_at(ws: Seq<Write>, j: int) -> bool {
    0 <= j && j + 2 < ws.len() && ws[j] == Write {
        field: Field::WdtLock,
        value: crate::registers::UNLOCK_TOKEN_FIRST,
    } && ws[j + 1] == Write { field: Field::WdtLock, value: crate::registers::UNLOCK_TOKEN_SECOND }
        && ws[j + 2] == Write { field: Field::WdtEnable, value: 0 }
}

/// `f` is written somewhere before index `i` of `ws`.
pub open spec fn written_before(ws: Seq<Write>, f: Field, i: int) -> bool {
    exists|k: int| 0 <= k < i && k < ws.len() && (#[trigger] ws[k]).field == f
}

/// In the initialisation sequence, every write of the PLL configuration comes
/// after the watchdog was unlocked and disabled and after every wait-state
/// field was written.
pub proof fn lemma_pll_enabled_after_watchdog_and_wait_states()
    ensures
        forall|i: int|
            0 <= i < init_writes().len() && (#[trigger] init_writes()[i]).field == Field::PllConfig0
                ==> (exists|j: int| j + 2 < i && watchdog_disabled_at(init_writes(), j)) && (
            forall|f: Field| is_wait_state_field(f) ==> written_before(init_writes(), f, i)),
{
    let ws = init_writes();
    assert(ws =~= seq![
        Write { field: Field::WdtLock, value: 1 },
        Write { field: Field::WdtLock, value: 2 },
        Write { field: Field::WdtEnable, value: 0 },
        Write { field: Field::WdtLock, value: 3 },
        Write { field: Field::RomSlowWs, value: ROM_SLOW_WS },
        Write { field: Field::RomFastWs, value: ROM_FAST_WS },
        Write { field: Field::Ram0SlowWs, value: RAM_SLOW_WS },
        Write { field: Field::Ram0FastWs, value: RAM_FAST_WS },
        Write { field: Field::Ram1SlowWs, value: RAM_SLOW_WS },
        Write { field: Field::Ram1FastWs, value: RAM_FAST_WS },
        Write { field: Field::FlashMainWs, value: FLASH_MAIN_WS },
        Write { field: Field::LfclkSel, value: LFCLK_SOURCE },
        Write { field: Field::Cm4FastIntDiv, value: CM4_FAST_INT_DIV },
        Write { field: Field::Cm0ClockCtl, value: CM0_CLOCK_CTL },
        Write { field: Field::PathMux1, value: PATH_SOURCE },
        Write { field: Field::PllConfig0, value: PLL0_CONFIG },
        Write { field: Field::PathMux2, value: PATH_SOURCE },
        Write { field: Field::RootSelect0, value: ROOT0_SELECT },
        Write { field: Field::RootSelect1, value: ROOT1_SELECT },
        Write { field: Field::WdtLock, value: 1 },
        Write { field: Field::WdtLock, value: 2 },
        Write { field: Field::Ilo0Enable, value: 1 },
        Write { field: Field::Ilo0Backup, value: 1 },
        Write { field: Field::WdtLock, value: 3 },
    ]);
    assert forall|i: int|
        0 <= i < ws.len() && (#[trigger] ws[i]).field == Field::PllConfig0 implies (exists|j: int|
        j + 2 < i && watchdog_disabled_at(ws, j)) && (forall|f: Field|
        is_wait_state_field(f) ==> written_before(ws, f, i)) by {
        assert(i == 15);
        assert(watchdog_disabled_at(ws, 0));
        assert forall|f: Field| is_wait_state_field(f) implies written_before(ws, f, i) by {
            assert(ws[4].field == Field::RomSlowWs);
            assert(ws[5].field == Field::RomFastWs);
            assert(ws[6].field == Field::Ram0SlowWs);
            assert(ws[7].field == Field::Ram0FastWs);
            assert(ws[8].field == Field::Ram1SlowWs);
            assert(ws[9].field == Field::Ram1FastWs);
            assert(ws[10].field == Field::FlashMainWs);
        }
    }
}

} // verus!

verus! {

/// The state after the initialisation sequence: watchdog disabled and its
/// lock closed, backup oscillator enabled, PLL configured and routed to both
/// clock roots, and every memory region at its wait-state table value.
pub open spec fn clock_tree_ready(ws: Seq<Write>) -> bool {
    &&& lock_state(ws) == WdtLock::Locked
    &&& field_value(ws, Field::WdtEnable) == Some(0u32)
    &&& field_value(ws, Field::Ilo0Enable) == Some(1u32)
    &&& field_value(ws, Field::Ilo0Backup) == Some(1u32)
    &&& field_value(ws, Field::PllConfig0) == Some(PLL0_CONFIG)
    &&& field_value(ws, Field::RootSelect0) == Some(ROOT0_SELECT)
    &&& field_value(ws, Field::RootSelect1) == Some(ROOT1_SELECT)
    &&& field_value(ws, Field::RomSlowWs) == Some(ROM_SLOW_WS)
    &&& field_value(ws, Field::RomFastWs) == Some(ROM_FAST_WS)
    &&& field_value(ws, Field::Ram0SlowWs) == Some(RAM_SLOW_WS)
    &&& field_value(ws, Field::Ram0FastWs) == Some(RAM_FAST_WS)
    &&& field_value(ws, Field::Ram1SlowWs) == Some(RAM_SLOW_WS)
    &&& field_value(ws, Field::Ram1FastWs) == Some(RAM_FAST_WS)
    &&& field_value(ws, Field::FlashMainWs) == Some(FLASH_MAIN_WS)
}

/// How one more write changes the lock state and the field values.
pub proof fn lemma_push_write(ws: Seq<Write>, w: Write)
    ensures
        lock_state(ws.push(w)) == (if w.field == Field::WdtLock {
            lock_step(lock_state(ws), w.value)
        } else {
            lock_state(ws)
        }),
        forall|f: Field|
            #![trigger field_value(ws.push(w), f)]
            field_value(ws.push(w), f) == (if w.field == f && (!is_protected(f) || lock_state(ws)
                == WdtLock::Unlocked) {
                Some(w.value)
            } else {
                field_value(ws, f)
            }),
{
    assert(ws.push(w).drop_last() =~= ws);
    assert(ws.push(w).take(ws.len() as int) =~= ws);
}

/// Whatever was written before, the initialisation sequence leaves the clock
/// tree ready: the unlock tokens open the lock from any state.
pub proof fn lemma_init_makes_clock_tree_ready(log: Seq<Write>)
    ensures
        clock_tree_ready(log + init_writes()),
{
    let l0 = log;
    let l1 = l0.push(Write { field: Field::WdtLock, value: crate::registers::UNLOCK_TOKEN_FIRST });
    lemma_push_write(l0, Write { field: Field::WdtLock, value: crate::registers::UNLOCK_TOKEN_FIRST });
    let l2 = l1.push(Write { field: Field::WdtLock, value: crate::registers::UNLOCK_TOKEN_SECOND });
    lemma_push_write(l1, Write { field: Field::WdtLock, value: crate::registers::UNLOCK_TOKEN_SECOND });
    let l3 = l2.push(Write { field: Field::WdtEnable, value: 0 });
    lemma_push_write(l2, Write { field: Field::WdtEnable, value: 0 });
    let l4 = l3.push(Write { field: Field::WdtLock, value: crate::registers::LOCK_TOKEN });
    lemma_push_write(l3, Write { field: Field::WdtLock, value: crate::registers::LOCK_TOKEN });
    let l5 = l4.push(Write { field: Field::RomSlowWs, value: ROM_SLOW_WS });
    lemma_push_write(l4, Write { field: Field::RomSlowWs, value: ROM_SLOW_WS });
    let l6 = l5.push(Write { field: Field::RomFastWs, value: ROM_FAST_WS });
    lemma_push_write(l5, Write { field: Field::RomFastWs, value: ROM_FAST_WS });
    let l7 = l6.push(Write { field: Field::Ram0SlowWs, value: RAM_SLOW_WS });
    lemma_push_write(l6, Write { field: Field::Ram0SlowWs, value: RAM_SLOW_WS });
    let l8 = l7.push(Write { field: Field::Ram0FastWs, value: RAM_FAST_WS });
    lemma_push_write(l7, Write { field: Field::Ram0FastWs, value: RAM_FAST_WS });
    let l9 = l8.push(Write { field: Field::Ram1SlowWs, value: RAM_SLOW_WS });
    lemma_push_write(l8, Write { field: Field::Ram1SlowWs, value: RAM_SLOW_WS });
    let l10 = l9.push(Write { field: Field::Ram1FastWs, value: RAM_FAST_WS });
    lemma_push_write(l9, Write { field: Field::Ram1FastWs, value: RAM_FAST_WS });
    let l11 = l10.push(Write { field: Field::FlashMainWs, value: FLASH_MAIN_WS });
    lemma_push_write(l10, Write { field: Field::FlashMainWs, value: FLASH_MAIN_WS });
    let l12 = l11.push(Write { field: Field::LfclkSel, value: LFCLK_SOURCE });
    lemma_push_write(l11, Write { field: Field::LfclkSel, value: LFCLK_SOURCE });
    let l13 = l12.push(Write { field: Field::Cm4FastIntDiv, value: CM4_FAST_INT_DIV });
    lemma_push_write(l12, Write { field: Field::Cm4FastIntDiv, value: CM4_FAST_INT_DIV });
    let l14 = l13.push(Write { field: Field::Cm0ClockCtl, value: CM0_CLOCK_CTL });
    lemma_push_write(l13, Write { field: Field::Cm0ClockCtl, value: CM0_CLOCK_CTL });
    let l15 = l14.push(Write { field: Field::PathMux1, value: PATH_SOURCE });
    lemma_push_write(l14, Write { field: Field::PathMux1, value: PATH_SOURCE });
    let l16 = l15.push(Write { field: Field::PllConfig0, value: PLL0_CONFIG });
    lemma_push_write(l15, Write { field: Field::PllConfig0, value: PLL0_CONFIG });
    let l17 = l16.push(Write { field: Field::PathMux2, value: PATH_SOURCE });
    lemma_push_write(l16, Write { field: Field::PathMux2, value: PATH_SOURCE });
    let l18 = l17.push(Write { field: Field::RootSelect0, value: ROOT0_SELECT });
    lemma_push_write(l17, Write { field: Field::RootSelect0, value: ROOT0_SELECT });
    let l19 = l18.push(Write { field: Field::RootSelect1, value: ROOT1_SELECT });
    lemma_push_write(l18, Write { field: Field::RootSelect1, value: ROOT1_SELECT });
    let l20 = l19.push(Write { field: Field::WdtLock, value: crate::registers::UNLOCK_TOKEN_FIRST });
    lemma_push_write(l19, Write { field: Field::WdtLock, value: crate::registers::UNLOCK_TOKEN_FIRST });
    let l21 = l20.push(Write { field: Field::WdtLock, value: crate::registers::UNLOCK_TOKEN_SECOND });
    lemma_push_write(l20, Write { field: Field::WdtLock, value: crate::registers::UNLOCK_TOKEN_SECOND });
    let l22 = l21.push(Write { field: Field::Ilo0Enable, value: 1 });
    lemma_push_write(l21, Write { field: Field::Ilo0Enable, value: 1 });
    let l23 = l22.push(Write { field: Field::Ilo0Backup, value: 1 });
    lemma_push_write(l22, Write { field: Field::Ilo0Backup, value: 1 });
    let l24 = l23.push(Write { field: Field::WdtLock, value: crate::registers::LOCK_TOKEN });
    lemma_push_write(l23, Write { field: Field::WdtLock, value: crate::registers::LOCK_TOKEN });
    assert(log + init_writes() =~= l24);
}

} // verus!
