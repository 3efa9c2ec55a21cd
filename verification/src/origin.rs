//! Who is behind a call.

use crate::types::AccountId;
use vstd::prelude::*;

verus! {

/// The origin of a call.
#[derive(Clone, Copy, PartialEq, Eq, Structural, Debug)]
pub enum Origin {
    /// The system itself ordained this call to happen.
    Root,
    /// The call is signed by an account.
    Signed(AccountId),
    /// The call is signed by nobody.
    Unsigned,
}

/// The origin type that `frame_system` inspects.
#[verifier::external_type_specification]
#[verifier::external_body]
#[verifier::reject_recursive_types(Account)]
pub struct ExSystemOrigin<Account>(frame_system::RawOrigin<Account>);

/// The error of an origin check of `frame_system`.
#[verifier::external_type_specification]
#[verifier::external_body]
pub struct ExBadOrigin(sp_runtime::traits::BadOrigin);

impl Into<Result<frame_system::RawOrigin<AccountId>, Origin>> for Origin {
    /// Writes an origin as `frame_system::RawOrigin`, variant by variant. Nothing is claimed of
    /// the result.
    #[verifier::external_body]
    fn into(self) -> Result<frame_system::RawOrigin<AccountId>, Origin> {
        match self {
            Origin::Root => Ok(frame_system::RawOrigin::Root),
            Origin::Signed(who) => Ok(frame_system::RawOrigin::Signed(who)),
            Origin::Unsigned => Ok(frame_system::RawOrigin::None),
        }
    }
}

/// Calls `frame_system::ensure_signed`, which returns the account that signed the call, and an
/// error for every origin that is not signed.
#[verifier::external_body]
pub(crate) fn ensure_signed(origin: Origin) -> (result: Result<
    AccountId,
    sp_runtime::traits::BadOrigin,
>)
    ensures
        match result {
            Ok(who) => origin == Origin::Signed(who),
            Err(_) => !(origin is Signed),
        },
{
    frame_system::ensure_signed(origin)
}

/// Calls `frame_system::ensure_root`, which succeeds on the root origin and on no other.
#[verifier::external_body]
pub(crate) fn ensure_root(origin: Origin) -> (result: Result<(), sp_runtime::traits::BadOrigin>)
    ensures
        result is Ok <==> origin is Root,
{
    frame_system::ensure_root(origin)
}

} // verus!
