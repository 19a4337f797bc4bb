use vstd::prelude::*;
use crate::registers::{
    Field, Write, WdtLock, RegisterBank, lock_step, lock_state, takes_effect, is_protected,
    UNLOCK_TOKEN_FIRST, UNLOCK_TOKEN_SECOND, LOCK_TOKEN,
};

verus! {

/// The two writes that open the watchdog lock.
pub open spec fn unlock_writes() -> Seq<Write> {
    seq![
        Write { field: Field::WdtLock, value: UNLOCK_TOKEN_FIRST },
        Write { field: Field::WdtLock, value: UNLOCK_TOKEN_SECOND },
    ]
}

/// The write that closes the watchdog lock.
pub open spec fn lock_writes() -> Seq<Write> {
    seq![Write { field: Field::WdtLock, value: LOCK_TOKEN }]
}

fn unlock_sequence() -> (r: Vec<Write>)
    ensures
        r@ == unlock_writes(),
{
    let r = vec![
        Write { field: Field::WdtLock, value: UNLOCK_TOKEN_FIRST },
        Write { field: Field::WdtLock, value: UNLOCK_TOKEN_SECOND },
    ];
    assert(r@ =~= unlock_writes());
    r
}

fn lock_sequence() -> (r: Vec<Write>)
    ensures
        r@ == lock_writes(),
{
    let r = vec![Write { field: Field::WdtLock, value: LOCK_TOKEN }];
    assert(r@ =~= lock_writes());
    r
}

/// Unlock the watchdog timer: the first token, then the second.
pub fn unlock_wdt(bank: &mut RegisterBank)
    ensures
        final(bank)@.log == old(bank)@.log + unlock_writes(),
        final(bank)@.polls == old(bank)@.polls,
        final(bank)@.locks_after == old(bank)@.locks_after,
{
    let ws = unlock_sequence();
    bank.write_all(&ws);
}

/// Lock the watchdog timer.
pub fn lock_wdt(bank: &mut RegisterBank)
    ensures
        final(bank)@.log == old(bank)@.log + lock_writes(),
        final(bank)@.polls == old(bank)@.polls,
        final(bank)@.locks_after == old(bank)@.locks_after,
{
    let ws = lock_sequence();
    bank.write_all(&ws);
}

/// The lock state after the writes `ws` are issued on top of the log `log`
/// follows from the state after `log` alone.
pub proof fn lemma_lock_state_append(log: Seq<Write>, ws: Seq<Write>)
    ensures
        lock_state(log + ws) == lock_after_tokens(lock_state(log), ws),
    decreases ws.len(),
{
    if ws.len() == 0 {
        assert(log + ws =~= log);
    } else {
        assert((log + ws).drop_last() =~= log + ws.drop_last());
        lemma_lock_state_append(log, ws.drop_last());
    }
}

/// The lock state reached from `s` by the writes `ws` (writes to other fields
/// leave it alone).
pub open spec fn lock_after_tokens(s: WdtLock, ws: Seq<Write>) -> WdtLock
    decreases ws.len(),
{
    if ws.len() == 0 {
        s
    } else {
        let t = lock_after_tokens(s, ws.drop_last());
        if ws.last().field == Field::WdtLock {
            lock_step(t, ws.last().value)
        } else {
            t
        }
    }
}

/// From a locked watchdog, two tokens open the lock exactly when they are the
/// first unlock token followed by the second; every other pair, and every
/// single token, leaves it closed.
pub proof fn lemma_unlock_only_by_token_order(a: u32, b: u32)
    ensures
        (lock_step(lock_step(WdtLock::Locked, a), b) == WdtLock::Unlocked) <==> (a
            == UNLOCK_TOKEN_FIRST && b == UNLOCK_TOKEN_SECOND),
        lock_step(WdtLock::Locked, a) != WdtLock::Unlocked,
{
}

/// Index `j` of the token writes `ws` holds the first unlock token, `j + 1`
/// the second, and no lock token follows them.
pub open spec fn opened_at(ws: Seq<Write>, j: int) -> bool {
    0 <= j && j + 1 < ws.len() && ws[j].value == UNLOCK_TOKEN_FIRST && ws[j + 1].value
        == UNLOCK_TOKEN_SECOND && forall|k: int| j + 1 < k < ws.len() ==> (#[trigger] ws[k]).value
        != LOCK_TOKEN
}

/// Any sequence of writes to the lock register that leaves a locked watchdog
/// open holds the first unlock token immediately followed by the second, with
/// no lock token after them; a half-open lock has just seen the first token.
pub proof fn lemma_open_only_after_token_pair(ws: Seq<Write>)
    requires
        forall|i: int| 0 <= i < ws.len() ==> (#[trigger] ws[i]).field == Field::WdtLock,
    ensures
        lock_after_tokens(WdtLock::Locked, ws) == WdtLock::Unlocked ==> exists|j: int|
            opened_at(ws, j),
        lock_after_tokens(WdtLock::Locked, ws) == WdtLock::FirstToken ==> ws.len() > 0
            && ws.last().value == UNLOCK_TOKEN_FIRST,
    decreases ws.len(),
{
    if ws.len() > 0 {
        let front = ws.drop_last();
        assert forall|i: int| 0 <= i < front.len() implies (#[trigger] front[i]).field
            == Field::WdtLock by {
            assert(front[i] == ws[i]);
        }
        lemma_open_only_after_token_pair(front);
        let t = lock_after_tokens(WdtLock::Locked, front);
        let v = ws.last().value;
        assert(ws[ws.len() - 1].field == Field::WdtLock);
        if lock_after_tokens(WdtLock::Locked, ws) == WdtLock::Unlocked {
            if t == WdtLock::Unlocked {
                let j = choose|j: int| opened_at(front, j);
                assert(v != LOCK_TOKEN);
                assert(ws[j] == front[j] && ws[j + 1] == front[j + 1]);
                assert forall|k: int| j + 1 < k < ws.len() implies (#[trigger] ws[k]).value
                    != LOCK_TOKEN by {
                    if k < ws.len() - 1 {
                        assert(ws[k] == front[k]);
                    }
                }
                assert(opened_at(ws, j));
            } else {
                assert(t == WdtLock::FirstToken && v == UNLOCK_TOKEN_SECOND);
                assert(opened_at(ws, ws.len() - 2));
            }
        }
    }
}

/// Conversely, the first unlock token immediately followed by the second, with
/// no lock token after them, leaves the lock open whatever came before.
pub proof fn lemma_token_pair_opens(ws: Seq<Write>, j: int)
    requires
        forall|i: int| 0 <= i < ws.len() ==> (#[trigger] ws[i]).field == Field::WdtLock,
        opened_at(ws, j),
    ensures
        lock_after_tokens(WdtLock::Locked, ws) == WdtLock::Unlocked,
    decreases ws.len(),
{
    let front = ws.drop_last();
    assert(ws[ws.len() - 1].field == Field::WdtLock);
    assert forall|i: int| 0 <= i < front.len() implies (#[trigger] front[i]).field
        == Field::WdtLock by {
        assert(front[i] == ws[i]);
    }
    if j + 2 == ws.len() {
        let before = front.drop_last();
        assert(front[front.len() - 1].field == Field::WdtLock);
        assert(front.last() == ws[j]);
        let t = lock_after_tokens(WdtLock::Locked, front);
        assert(t == lock_step(lock_after_tokens(WdtLock::Locked, before), UNLOCK_TOKEN_FIRST));
    } else {
        assert(ws[ws.len() - 1].value != LOCK_TOKEN);
        assert forall|k: int| j + 1 < k < front.len() implies (#[trigger] front[k]).value
            != LOCK_TOKEN by {
            assert(front[k] == ws[k]);
        }
        assert(front[j] == ws[j] && front[j + 1] == ws[j + 1]);
        assert(opened_at(front, j));
        lemma_token_pair_opens(front, j);
    }
}

/// Whatever state the lock is in, the lock token closes it.
pub proof fn lemma_lock_token_closes(s: WdtLock)
    ensures
        lock_step(s, LOCK_TOKEN) == WdtLock::Locked,
{
}

/// Whatever was written before, a write to a protected field issued right
/// after the unlock sequence takes effect, and one issued right after the lock
/// sequence does not.
pub proof fn lemma_protected_write_window(log: Seq<Write>, w: Write)
    requires
        is_protected(w.field),
    ensures
        takes_effect(log + unlock_writes() + seq![w], (log.len() + 2) as int),
        !takes_effect(log + lock_writes() + seq![w], (log.len() + 1) as int),
{
    let opened = log + unlock_writes();
    lemma_lock_state_append(log, unlock_writes());
    reveal_with_fuel(lock_after_tokens, 3);
    assert(unlock_writes().drop_last() =~= seq![Write { field: Field::WdtLock, value: UNLOCK_TOKEN_FIRST }]);
    assert(unlock_writes().drop_last().drop_last() =~= Seq::<Write>::empty());
    assert((opened + seq![w]).take(opened.len() as int) =~= opened);
    let closed = log + lock_writes();
    lemma_lock_state_append(log, lock_writes());
    assert(lock_writes().drop_last() =~= Seq::<Write>::empty());
    assert((closed + seq![w]).take(closed.len() as int) =~= closed);
}

} // verus!
