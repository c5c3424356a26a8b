use vstd::prelude::*;
use crate::balances::HolderId;
use crate::vault::{Vault, wrap_error, unwrap_error, wrapped, unwrapped};

verus! {

/// One call against the vault, as a caller issued it.
pub enum Call {
    Wrap(HolderId, u64),
    Unwrap(HolderId, u64),
}

/// `post` is what `call` committed on `pre`.
pub open spec fn committed(pre: Vault, call: Call, post: Vault) -> bool {
    match call {
        Call::Wrap(c, a) => wrap_error(pre, c, a) is None && wrapped(pre, post, c, a),
        Call::Unwrap(c, a) => unwrap_error(pre, c, a) is None && unwrapped(pre, post, c, a),
    }
}

/// `states` is a run of committed `calls`: each state follows from the one
/// before it by the call between them.
pub open spec fn is_run(states: Seq<Vault>, calls: Seq<Call>) -> bool {
    &&& states.len() == calls.len() + 1
    &&& states[0].wf()
    &&& forall|i: int|
        0 <= i < calls.len() ==> #[trigger] committed(states[i], calls[i], states[i + 1])
}

/// Everything that the wrap calls of `calls` deposited.
pub open spec fn deposited(calls: Seq<Call>) -> nat
    decreases calls.len(),
{
    if calls.len() == 0 {
        0
    } else {
        deposited(calls.drop_last()) + match calls.last() {
            Call::Wrap(_, a) => a as nat,
            Call::Unwrap(_, _) => 0,
        }
    }
}

/// Everything that the unwrap calls of `calls` released.
pub open spec fn released(calls: Seq<Call>) -> nat
    decreases calls.len(),
{
    if calls.len() == 0 {
        0
    } else {
        released(calls.drop_last()) + match calls.last() {
            Call::Wrap(_, _) => 0,
            Call::Unwrap(_, a) => a as nat,
        }
    }
}

/// `a` and `b` agree on custody, supply and every balance.
pub open spec fn same_balances(a: Vault, b: Vault) -> bool {
    &&& a.reserve_balance() == b.reserve_balance()
    &&& a.total_supply() == b.total_supply()
    &&& forall|h: HolderId| #[trigger] a.token_balance(h) == b.token_balance(h)
    &&& forall|h: HolderId| #[trigger] a.native_balance(h) == b.native_balance(h)
}

proof fn lemma_run_prefix(states: Seq<Vault>, calls: Seq<Call>, k: int)
    requires
        is_run(states, calls),
        0 <= k <= calls.len(),
    ensures
        states[k].wf(),
        states[k].total_supply() + released(calls.take(k)) == states[0].total_supply()
            + deposited(calls.take(k)),
        states[k].reserve_balance() + released(calls.take(k)) == states[0].reserve_balance()
            + deposited(calls.take(k)),
    decreases k,
{
    if k > 0 {
        lemma_run_prefix(states, calls, k - 1);
        assert(calls.take(k).drop_last() =~= calls.take(k - 1));
        let j = k - 1;
        assert(committed(states[j], calls[j], states[j + 1]));
    }
}

/// Conservation: along any run of committed wrap and unwrap calls, every
/// state holds exactly as much in custody as the substitute token's supply.
pub proof fn conservation(states: Seq<Vault>, calls: Seq<Call>)
    requires
        is_run(states, calls),
    ensures
        forall|k: int|
            #![trigger states[k]]
            0 <= k < states.len() ==> states[k].wf() && states[k].reserve_balance()
                == states[k].total_supply(),
{
    assert forall|k: int| #![trigger states[k]] 0 <= k < states.len() implies states[k].wf()
        && states[k].reserve_balance() == states[k].total_supply() by {
        lemma_run_prefix(states, calls, k);
        states[k].lemma_reserve_eq_supply();
    }
}

/// No free mint: along any run, the supply grows only by what wrap calls
/// deposited and shrinks by exactly what unwrap calls released, so it never
/// exceeds its starting value plus the deposits; custody moves alike.
pub proof fn no_free_mint(states: Seq<Vault>, calls: Seq<Call>)
    requires
        is_run(states, calls),
    ensures
        forall|k: int|
            0 <= k < states.len() ==> #[trigger] states[k].total_supply() + released(
                calls.take(k),
            ) == states[0].total_supply() + deposited(calls.take(k)),
        forall|k: int|
            0 <= k < states.len() ==> #[trigger] states[k].reserve_balance() + released(
                calls.take(k),
            ) == states[0].reserve_balance() + deposited(calls.take(k)),
        forall|k: int|
            0 <= k < states.len() ==> #[trigger] states[k].total_supply()
                <= states[0].total_supply() + deposited(calls.take(k)),
{
    assert forall|k: int| 0 <= k < states.len() implies #[trigger] states[k].total_supply()
        + released(calls.take(k)) == states[0].total_supply() + deposited(calls.take(k)) by {
        lemma_run_prefix(states, calls, k);
    }
    assert forall|k: int| 0 <= k < states.len() implies #[trigger] states[k].reserve_balance()
        + released(calls.take(k)) == states[0].reserve_balance() + deposited(calls.take(k)) by {
        lemma_run_prefix(states, calls, k);
    }
}

/// Round trip: after a successful `wrap(caller, amount)`, `unwrap(caller,
/// amount)` succeeds and restores custody, supply and every balance exactly.
pub proof fn round_trip(v0: Vault, v1: Vault, v2: Vault, caller: HolderId, amount: u64)
    requires
        v0.wf(),
        wrap_error(v0, caller, amount) is None,
        wrapped(v0, v1, caller, amount),
    ensures
        unwrap_error(v1, caller, amount) is None,
        unwrapped(v1, v2, caller, amount) ==> same_balances(v2, v0),
{
    v0.lemma_native_bounded(caller);
    if unwrapped(v1, v2, caller, amount) {
        assert forall|h: HolderId| #[trigger] v2.token_balance(h) == v0.token_balance(h) by {
            if h != caller {
                assert(v1.token_balance(h) == v0.token_balance(h));
            }
        }
        assert forall|h: HolderId| #[trigger] v2.native_balance(h) == v0.native_balance(h) by {
            if h != caller {
                assert(v1.native_balance(h) == v0.native_balance(h));
            }
        }
    }
}

/// Interleaving: two wraps reach the same state in either commit order, and
/// custody and supply each grow by both amounts, with no update lost.
pub proof fn wraps_commute(
    v0: Vault,
    a1: Vault,
    a2: Vault,
    b1: Vault,
    b2: Vault,
    p: HolderId,
    x: u64,
    q: HolderId,
    y: u64,
)
    requires
        v0.wf(),
        wrapped(v0, a1, p, x),
        wrapped(a1, a2, q, y),
        wrapped(v0, b1, q, y),
        wrapped(b1, b2, p, x),
    ensures
        same_balances(a2, b2),
        a2.reserve_balance() == v0.reserve_balance() + x + y,
        a2.total_supply() == v0.total_supply() + x + y,
        a2.reserve_balance() == a2.total_supply(),
{
    assert forall|h: HolderId| #[trigger] a2.token_balance(h) == b2.token_balance(h) by {
        if h != p && h != q {
            assert(a1.token_balance(h) == v0.token_balance(h));
            assert(b1.token_balance(h) == v0.token_balance(h));
        }
    }
    assert forall|h: HolderId| #[trigger] a2.native_balance(h) == b2.native_balance(h) by {
        if h != p && h != q {
            assert(a1.native_balance(h) == v0.native_balance(h));
            assert(b1.native_balance(h) == v0.native_balance(h));
        }
    }
    a2.lemma_reserve_eq_supply();
}

} // verus!
