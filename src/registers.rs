use vstd::prelude::*;

verus! {

/// A register (or an independently written register field) touched during bring-up.
#[derive(Clone, Copy, Debug, PartialEq, Eq, Structural)]
pub enum Field {
    WdtLock,
    WdtEnable,
    RomSlowWs,
    RomFastWs,
    Ram0SlowWs,
    Ram0FastWs,
    Ram1SlowWs,
    Ram1FastWs,
    FlashMainWs,
    LfclkSel,
    Cm4FastIntDiv,
    Cm0ClockCtl,
    PathMux1,
    PllConfig0,
    PathMux2,
    RootSelect0,
    RootSelect1,
    Ilo0Enable,
    Ilo0Backup,
    Cm4VectorTableBase,
    Cm4PwrCtl,
}

/// One write of `value` to `field`.
#[derive(Clone, Copy, Debug, PartialEq, Eq, Structural)]
pub struct Write {
    pub field: Field,
    pub value: u32,
}

/// State of the watchdog's two-token lock protocol.
#[derive(Clone, Copy, Debug, PartialEq, Eq, Structural)]
pub enum WdtLock {
    Locked,
    FirstToken,
    Unlocked,
}

pub const UNLOCK_TOKEN_FIRST: u32 = 1;

pub const UNLOCK_TOKEN_SECOND: u32 = 2;

pub const LOCK_TOKEN: u32 = 3;

/// Fields that only take a write while the watchdog lock is open.
pub open spec fn is_protected(f: Field) -> bool {
    f == Field::WdtEnable || f == Field::Ilo0Enable || f == Field::Ilo0Backup
}

/// The lock state after `token` is written to the lock register in state `s`.
pub open spec fn lock_step(s: WdtLock, token: u32) -> WdtLock {
    if token == LOCK_TOKEN {
        WdtLock::Locked
    } else {
        match s {
            WdtLock::Locked => if token == UNLOCK_TOKEN_FIRST {
                WdtLock::FirstToken
            } else {
                WdtLock::Locked
            },
            WdtLock::FirstToken => if token == UNLOCK_TOKEN_SECOND {
                WdtLock::Unlocked
            } else if token == UNLOCK_TOKEN_FIRST {
                WdtLock::FirstToken
            } else {
                WdtLock::Locked
            },
            WdtLock::Unlocked => WdtLock::Unlocked,
        }
    }
}

/// The lock state after a log of writes, starting locked at reset.
pub open spec fn lock_state(ws: Seq<Write>) -> WdtLock
    decreases ws.len(),
{
    if ws.len() == 0 {
        WdtLock::Locked
    } else {
        let s = lock_state(ws.drop_last());
        if ws.last().field == Field::WdtLock {
            lock_step(s, ws.last().value)
        } else {
            s
        }
    }
}

/// Whether the write at index `i` of the log reaches its register.
pub open spec fn takes_effect(ws: Seq<Write>, i: int) -> bool {
    !is_protected(ws[i].field) || lock_state(ws.take(i)) == WdtLock::Unlocked
}

/// The value held by `f` after the log: the last write that took effect,
/// or `None` while the field still holds its reset default.
pub open spec fn field_value(ws: Seq<Write>, f: Field) -> Option<u32>
    decreases ws.len(),
{
    if ws.len() == 0 {
        None
    } else if ws.last().field == f && takes_effect(ws, ws.len() - 1) {
        Some(ws.last().value)
    } else {
        field_value(ws.drop_last(), f)
    }
}

/// Whether the PLL lock-status flag reads as set on the read numbered `k`,
/// for a PLL that locks once `locks_after` reads have been made (never on `None`).
pub open spec fn pll_locked_at(locks_after: Option<u64>, k: nat) -> bool {
    match locks_after {
        Some(n) => k >= n,
        None => false,
    }
}

/// Executable form of [`lock_step`].
pub fn next_lock_state(s: WdtLock, token: u32) -> (r: WdtLock)
    ensures
        r == lock_step(s, token),
{
    if token == LOCK_TOKEN {
        WdtLock::Locked
    } else {
        match s {
            WdtLock::Locked => if token == UNLOCK_TOKEN_FIRST {
                WdtLock::FirstToken
            } else {
                WdtLock::Locked
            },
            WdtLock::FirstToken => if token == UNLOCK_TOKEN_SECOND {
                WdtLock::Unlocked
            } else if token == UNLOCK_TOKEN_FIRST {
                WdtLock::FirstToken
            } else {
                WdtLock::Locked
            },
            WdtLock::Unlocked => WdtLock::Unlocked,
        }
    }
}

fn is_protected_field(f: Field) -> (r: bool)
    ensures
        r == is_protected(f),
{
    match f {
        Field::WdtEnable | Field::Ilo0Enable | Field::Ilo0Backup => true,
        _ => false,
    }
}

/// Abstract state of a register bank: the writes issued so far, in order,
/// the number of PLL status reads made, and when the PLL locks.
pub ghost struct BankView {
    pub log: Seq<Write>,
    pub polls: nat,
    pub locks_after: Option<u64>,
}

/// A register bank at reset defaults that records every write issued to it.
pub struct RegisterBank {
    writes: Vec<Write>,
    polls: u64,
    locks_after: Option<u64>,
}

impl View for RegisterBank {
    type V = BankView;

    closed spec fn view(&self) -> BankView {
        BankView { log: self.writes@, polls: self.polls as nat, locks_after: self.locks_after }
    }
}

impl RegisterBank {
    /// A bank at reset defaults whose PLL reports lock from the read numbered
    /// `locks_after` on (`None`: never).
    pub fn new(locks_after: Option<u64>) -> (r: RegisterBank)
        ensures
            r@.log == Seq::<Write>::empty(),
            r@.polls == 0,
            r@.locks_after == locks_after,
    {
        RegisterBank { writes: Vec::new(), polls: 0, locks_after }
    }

    /// Issues one write.
    pub fn write(&mut self, w: Write)
        ensures
            final(self)@.log == old(self)@.log.push(w),
            final(self)@.polls == old(self)@.polls,
            final(self)@.locks_after == old(self)@.locks_after,
    {
        self.writes.push(w);
    }

    /// Issues each write of `ws`, in order.
    pub fn write_all(&mut self, ws: &Vec<Write>)
        ensures
            final(self)@.log == old(self)@.log + ws@,
            final(self)@.polls == old(self)@.polls,
            final(self)@.locks_after == old(self)@.locks_after,
    {
        let ghost start = self@;
        let mut i: usize = 0;
        while i < ws.len()
            invariant
                i <= ws@.len(),
                self@.log == start.log + ws@.take(i as int),
                self@.polls == start.polls,
                self@.locks_after == start.locks_after,
            decreases ws@.len() - i,
        {
            self.write(ws[i]);
            i += 1;
            assert(ws@.take(i as int) =~= ws@.take(i - 1).push(ws@[i - 1]));
        }
        assert(ws@.take(ws@.len() as int) =~= ws@);
    }

    /// Reads the PLL lock-status flag once.
    pub fn read_pll_locked(&mut self) -> (r: bool)
        requires
            old(self)@.polls < u64::MAX,
        ensures
            r == pll_locked_at(old(self)@.locks_after, old(self)@.polls),
            final(self)@.polls == old(self)@.polls + 1,
            final(self)@.log == old(self)@.log,
            final(self)@.locks_after == old(self)@.locks_after,
    {
        let r = match self.locks_after {
            Some(n) => self.polls >= n,
            None => false,
        };
        self.polls = self.polls + 1;
        r
    }

    /// Number of PLL status reads made so far.
    pub fn polls(&self) -> (r: u64)
        ensures
            r == self@.polls,
    {
        self.polls
    }

    /// The writes issued so far, in order.
    pub fn writes(&self) -> (r: Vec<Write>)
        ensures
            r@ == self@.log,
    {
        self.writes.clone()
    }

    /// The current state of the watchdog lock.
    pub fn wdt_state(&self) -> (r: WdtLock)
        ensures
            r == lock_state(self@.log),
    {
        let ghost ws = self.writes@;
        let mut s = WdtLock::Locked;
        let mut i: usize = 0;
        while i < self.writes.len()
            invariant
                ws == self.writes@,
                i <= ws.len(),
                s == lock_state(ws.take(i as int)),
            decreases ws.len() - i,
        {
            let w = self.writes[i];
            assert(ws.take(i + 1).drop_last() =~= ws.take(i as int));
            if w.field == Field::WdtLock {
                s = next_lock_state(s, w.value);
            }
            i += 1;
        }
        assert(ws.take(ws.len() as int) =~= ws);
        s
    }

    /// The value `f` holds now (`None`: its reset default), honouring the
    /// watchdog lock on protected fields.
    pub fn value(&self, f: Field) -> (r: Option<u32>)
        ensures
            r == field_value(self@.log, f),
    {
        let ghost ws = self.writes@;
        let mut s = WdtLock::Locked;
        let mut v: Option<u32> = None;
        let mut i: usize = 0;
        while i < self.writes.len()
            invariant
                ws == self.writes@,
                i <= ws.len(),
                s == lock_state(ws.take(i as int)),
                v == field_value(ws.take(i as int), f),
            decreases ws.len() - i,
        {
            let w = self.writes[i];
            let ghost next = ws.take(i + 1);
            assert(next.drop_last() =~= ws.take(i as int));
            assert(next.take(i as int) =~= ws.take(i as int));
            if w.field == f && (!is_protected_field(w.field) || s == WdtLock::Unlocked) {
                v = Some(w.value);
            }
            if w.field == Field::WdtLock {
                s = next_lock_state(s, w.value);
            }
            i += 1;
        }
        assert(ws.take(ws.len() as int) =~= ws);
        v
    }
}

} // verus!
