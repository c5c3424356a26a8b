use vstd::prelude::*;
use crate::balances::HolderId;
use crate::error::ErrorCode;
use crate::vault::{Vault, wrap_error, unwrap_error, wrapped, unwrapped};

verus! {

/// The storage slot that one-time setup fills.
pub struct Initialize {
    pub vault: Option<Vault>,
}

/// A wrap request: the vault it acts on and the authenticated caller.
pub struct Wrap {
    pub vault: Vault,
    pub user: HolderId,
}

/// An unwrap request: the vault it acts on and the authenticated caller.
pub struct Unwrap {
    pub vault: Vault,
    pub user: HolderId,
}

/// Creates the vault at genesis; refuses to touch a slot already filled.
pub fn initialize(ctx: &mut Initialize) -> (r: Result<(), ErrorCode>)
    ensures
        old(ctx).vault is Some ==> r == Err::<(), ErrorCode>(ErrorCode::AlreadyInitialized)
            && *final(ctx) == *old(ctx),
        old(ctx).vault is None ==> r is Ok && match final(ctx).vault {
            Some(v) => {
                &&& v.wf()
                &&& v.reserve_balance() == 0
                &&& v.total_supply() == 0
                &&& forall|h: HolderId| #[trigger] v.token_balance(h) == 0
                &&& forall|h: HolderId| #[trigger] v.native_balance(h) == 0
            },
            None => false,
        },
{
    if ctx.vault.is_some() {
        return Err(ErrorCode::AlreadyInitialized);
    }
    ctx.vault = Some(Vault::new());
    Ok(())
}

/// Wraps `amount` native units of `ctx.user` into substitute tokens.
pub fn wrap(ctx: &mut Wrap, amount: u64) -> (r: Result<(), ErrorCode>)
    requires
        old(ctx).vault.wf(),
    ensures
        final(ctx).user == old(ctx).user,
        final(ctx).vault.wf(),
        match r {
            Ok(()) => wrap_error(old(ctx).vault, old(ctx).user, amount) is None && wrapped(
                old(ctx).vault,
                final(ctx).vault,
                old(ctx).user,
                amount,
            ),
            Err(e) => wrap_error(old(ctx).vault, old(ctx).user, amount) == Some(e)
                && final(ctx).vault == old(ctx).vault,
        },
{
    let user = ctx.user;
    ctx.vault.wrap(user, amount)
}

/// Unwraps `amount` substitute tokens of `ctx.user` back into native units.
pub fn unwrap(ctx: &mut Unwrap, amount: u64) -> (r: Result<(), ErrorCode>)
    requires
        old(ctx).vault.wf(),
    ensures
        final(ctx).user == old(ctx).user,
        final(ctx).vault.wf(),
        match r {
            Ok(()) => unwrap_error(old(ctx).vault, old(ctx).user, amount) is None && unwrapped(
                old(ctx).vault,
                final(ctx).vault,
                old(ctx).user,
                amount,
            ),
            Err(e) => unwrap_error(old(ctx).vault, old(ctx).user, amount) == Some(e)
                && final(ctx).vault == old(ctx).vault,
        },
{
    let user = ctx.user;
    ctx.vault.unwrap(user, amount)
}

} // verus!
