//! Two-step transfer of an admin role.
use vstd::prelude::*;

use crate::{Identifier, Sender, UnauthorizedError};

verus! {

pub type Creator = Identifier;

pub type CurrentAdmin = Identifier;

pub type NextAdmin = Identifier;

/// A zero sized token representing the Admin role - it can only be created by this module.
/// Functions of other modules take it as a parameter, so that authorization must come first.
#[derive(Debug, Clone, Copy)]
pub struct AdminRole(());

/// Commands that update the stored admin state.
#[derive(Debug, Clone, PartialEq, Eq)]
pub enum SetCmd {
    Admin(CurrentAdmin),
    NextAdmin(CurrentAdmin),
}

/// Read access to the stored admin state.
pub trait Repository {
    /// The creator of the contract.
    spec fn spec_creator(&self) -> Seq<char>;

    /// The current admin, if one was set.
    spec fn spec_current_admin(&self) -> Option<Seq<char>>;

    /// The next admin, if one was set.
    spec fn spec_next_admin(&self) -> Option<Seq<char>>;

    /// Returns the creator of the contract (assumed to always be set)
    fn creator(&self) -> (r: Creator)
        ensures
            r@ == self.spec_creator(),
    ;

    /// Returns the current admin, if any
    fn current_admin(&self) -> (r: Option<CurrentAdmin>)
        ensures
            r matches Some(a) ==> self.spec_current_admin() == Some(a@),
            r is None ==> self.spec_current_admin() is None,
    ;

    /// Returns the next admin, if any
    fn next_admin(&self) -> (r: Option<NextAdmin>)
        ensures
            r matches Some(a) ==> self.spec_next_admin() == Some(a@),
            r is None ==> self.spec_next_admin() is None,
    ;
}

/// The admin in effect: the stored current admin, or else the creator.
pub open spec fn effective_admin(creator: Seq<char>, current: Option<Seq<char>>) -> Seq<char> {
    match current {
        Some(a) => a,
        None => creator,
    }
}

/// The stored admin state as plain values.
pub struct AdminState {
    pub creator: Seq<char>,
    pub current: Option<Seq<char>>,
    pub next: Option<Seq<char>>,
}

/// The admin state after a command has been applied to it.
pub open spec fn apply_set_cmd(s: AdminState, cmd: SetCmd) -> AdminState {
    match cmd {
        SetCmd::Admin(a) => AdminState { current: Some(a@), ..s },
        SetCmd::NextAdmin(a) => AdminState { next: Some(a@), ..s },
    }
}

/// The admin state a repository holds.
pub open spec fn repository_state<R: Repository>(r: &R) -> AdminState {
    AdminState {
        creator: r.spec_creator(),
        current: r.spec_current_admin(),
        next: r.spec_next_admin(),
    }
}

/// Authorization and transfer of the admin role.
pub trait Admin {
    /// Authorize the `sender` as the current admin, obtaining the `AdminRole` token
    fn authorize_admin(&self, sender: Sender) -> Result<AdminRole, UnauthorizedError>;

    /// Transfer the admin role to the next admin - they have to `claim_admin_role` in order to become the current admin
    fn transfer_admin_role(&self, admin_role: AdminRole, next_admin: NextAdmin) -> Result<SetCmd, UnauthorizedError>;

    /// Claim the current admin role (if the sender matches the next admin)
    fn claim_admin_role(&self, sender: Sender) -> Result<SetCmd, UnauthorizedError>;

    /// Cancel the admin role transfer process
    fn cancel_next_admin(&self, admin_role: AdminRole) -> Result<SetCmd, UnauthorizedError>;
}

/// The admin logic over a repository.
pub struct AdminImpl<'a, R: Repository> {
    repository: &'a R,
}

/// Builds the admin logic over a repository.
pub fn admin<'a, R: Repository>(repository: &'a R) -> (r: AdminImpl<'a, R>)
    ensures
        r.repo() == repository,
{
    AdminImpl { repository }
}

impl<'a, R: Repository> AdminImpl<'a, R> {
    /// The repository the logic reads.
    pub closed spec fn repo(&self) -> &'a R {
        self.repository
    }

    /// The admin in effect.
    pub open spec fn spec_effective_admin(&self) -> Seq<char> {
        effective_admin(self.repo().spec_creator(), self.repo().spec_current_admin())
    }

    fn current_admin(&self) -> (r: CurrentAdmin)
        ensures
            r@ == self.spec_effective_admin(),
    {
        match self.repository.current_admin() {
            Some(a) => a,
            None => self.repository.creator(),
        }
    }
}

impl<'a, R: Repository> Admin for AdminImpl<'a, R> {
    /// Authorize the `sender` as the current admin, obtaining the `AdminRole` token
    fn authorize_admin(&self, sender: Sender) -> (r: Result<AdminRole, UnauthorizedError>)
        ensures
            r is Ok <==> sender@ == self.spec_effective_admin(),
    {
        if !sender.same_as(&self.current_admin()) {
            return Err(UnauthorizedError);
        }
        Ok(AdminRole(()))
    }

    /// Transfer the admin role to the next admin - they have to `claim_admin_role` in order to become the current admin
    fn transfer_admin_role(&self, admin_role: AdminRole, next_admin: NextAdmin) -> (r: Result<
        SetCmd,
        UnauthorizedError,
    >)
        ensures
            r matches Ok(SetCmd::NextAdmin(a)) && a@ == next_admin@,
    {
        Ok(SetCmd::NextAdmin(next_admin))
    }

    /// Claim the current admin role (if the sender matches the next admin)
    fn claim_admin_role(&self, sender: Sender) -> (r: Result<SetCmd, UnauthorizedError>)
        ensures
            r is Ok <==> self.repo().spec_next_admin() == Some(sender@),
            r is Ok ==> (r matches Ok(SetCmd::Admin(a)) && a@ == sender@),
    {
        let next_admin = match self.repository.next_admin() {
            Some(a) => a,
            None => {
                return Err(UnauthorizedError);
            },
        };
        if !sender.same_as(&next_admin) {
            return Err(UnauthorizedError);
        }
        Ok(SetCmd::Admin(next_admin))
    }

    /// Cancel the admin role transfer process
    fn cancel_next_admin(&self, admin_role: AdminRole) -> (r: Result<SetCmd, UnauthorizedError>)
        ensures
            r matches Ok(SetCmd::NextAdmin(a)) && a@ == self.spec_effective_admin(),
    {
        let admin = self.current_admin();
        Ok(SetCmd::NextAdmin(admin))
    }
}

/// Only the proposed next admin can complete a transfer: once the next admin is set to `next`,
/// a claim by `sender` succeeds exactly when `sender` is `next`, and after the claim is applied
/// the claimant is the admin in effect.
pub proof fn law_claim_completes_transfer(s: AdminState, next: Identifier, sender: Identifier)
    ensures
        ({
            let proposed = apply_set_cmd(s, SetCmd::NextAdmin(next));
            &&& (proposed.next == Some(sender@) <==> sender@ == next@)
            &&& effective_admin(
                apply_set_cmd(proposed, SetCmd::Admin(sender)).creator,
                apply_set_cmd(proposed, SetCmd::Admin(sender)).current,
            ) == sender@
        }),
{
}

/// Cancelling a transfer proposes the admin in effect as the next admin, so that nobody else can claim.
pub proof fn law_cancel_leaves_admin_unchanged(s: AdminState, current: Identifier)
    requires
        current@ == effective_admin(s.creator, s.current),
    ensures
        ({
            let after = apply_set_cmd(s, SetCmd::NextAdmin(current));
            &&& effective_admin(after.creator, after.current) == effective_admin(s.creator, s.current)
            &&& after.next == Some(effective_admin(s.creator, s.current))
        }),
{
}

} // verus!
