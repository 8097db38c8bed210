//! Organization membership: invitations (sent, resent, revoked, accepted),
//! leaving and removing members.
use vstd::prelude::*;
use crate::errors::StoreError;
use crate::time::{DateTime, NANOS_PER_DAY};

verus! {

/// What `str::to_lowercase` gives for `s` (the Unicode lowercase mapping,
/// as std computes it).
pub uninterp spec fn lowercase(s: Seq<char>) -> Seq<char>;

/// `str::to_lowercase` from std. Trusted: the result is the named value.
#[verifier::external_body]
fn to_lowercase(s: &str) -> (r: String)
    ensures
        r@ == lowercase(s@),
{
    s.to_lowercase()
}

/// An invitation as the checks read it.
#[derive(Debug, Clone, Copy, PartialEq, Eq)]
pub struct InviteState {
    pub organization_id: u128,
    pub accepted: bool,
    pub revoked: bool,
    pub expires_at: DateTime,
}

/// A member's role in an organization.
#[derive(Debug, Clone, Copy, PartialEq, Eq, Structural)]
pub enum OrganizationUserRole {
    Admin,
    Member,
}

/// The invite has expired at `now`.
pub open spec fn expired(invite: InviteState, now: DateTime) -> bool {
    invite.expires_at.nanos < now.nanos
}

/// The invitation's email address, normalized for storage and comparison.
pub fn normalized_email(email: &str) -> (r: String)
    ensures
        r@ == lowercase(email@),
{
    to_lowercase(email)
}

/// Checks that the inviter does not invite their own address (compared
/// without case).
pub fn check_not_self_invite(actor_email: &str, invited_email: &str) -> (r: Result<(), StoreError>)
    ensures
        lowercase(actor_email@) == lowercase(invited_email@) ==> (r matches Err(StoreError::InvalidArgument(m))
            && m@ == "You cannot invite yourself"@),
        lowercase(actor_email@) != lowercase(invited_email@) ==> r is Ok,
{
    let a = to_lowercase(actor_email);
    let b = to_lowercase(invited_email);
    if a == b {
        Err(StoreError::InvalidArgument("You cannot invite yourself".to_owned()))
    } else {
        Ok(())
    }
}

/// Checks that a new invitation is warranted: the address is not a member
/// yet and has no pending invitation.
pub fn check_invite_target(already_member: bool, pending_invite: bool) -> (r: Result<(), StoreError>)
    ensures
        already_member ==> (r matches Err(StoreError::InvalidArgument(m)) && m@ == "User is already a member"@),
        !already_member && pending_invite ==> (r matches Err(StoreError::InvalidArgument(m))
            && m@ == "An active invite already exists for this email"@),
        !already_member && !pending_invite ==> r is Ok,
{
    if already_member {
        Err(StoreError::InvalidArgument("User is already a member".to_owned()))
    } else if pending_invite {
        Err(StoreError::InvalidArgument("An active invite already exists for this email".to_owned()))
    } else {
        Ok(())
    }
}

/// When an invitation sent (or resent) at `now` expires: `ttl_days` later.
pub fn invite_expiry(now: DateTime, ttl_days: u32) -> (t: DateTime)
    requires
        now.nanos + ttl_days * NANOS_PER_DAY <= i128::MAX,
    ensures
        t.nanos == now.nanos + ttl_days * NANOS_PER_DAY,
{
    DateTime { nanos: now.nanos + ttl_days as i128 * NANOS_PER_DAY }
}

/// What resending an invitation answers.
pub open spec fn resend_outcome(invite: InviteState, org_id: u128, now: DateTime) -> Result<(), (bool, Seq<char>)> {
    if invite.organization_id != org_id {
        Err((true, "Invite does not belong to this organization"@))
    } else if invite.accepted {
        Err((false, "Invite already accepted"@))
    } else if invite.revoked {
        Err((false, "Invite is revoked"@))
    } else if expired(invite, now) {
        Err((false, "Invite is expired. Revoke it and create a new one."@))
    } else {
        Ok(())
    }
}

/// What revoking an invitation answers.
pub open spec fn revoke_outcome(invite: InviteState, org_id: u128) -> Result<(), (bool, Seq<char>)> {
    if invite.organization_id != org_id {
        Err((true, "Invite does not belong to this organization"@))
    } else if invite.accepted {
        Err((false, "Invite already accepted"@))
    } else if invite.revoked {
        Err((false, "Invite already revoked"@))
    } else {
        Ok(())
    }
}

/// What accepting an invitation answers (before the membership check).
pub open spec fn accept_outcome(invite: InviteState, now: DateTime, invited_email: Seq<char>, user_email: Seq<char>) -> Result<(), (bool, Seq<char>)> {
    if invite.accepted {
        Err((false, "This invite has already been used"@))
    } else if invite.revoked || expired(invite, now) {
        Err((false, "Invalid or expired invite link"@))
    } else if lowercase(invited_email) != lowercase(user_email) {
        Err((true, "This invite is not valid for your account"@))
    } else {
        Ok(())
    }
}

/// `r` answers as the outcome `o` says: `(true, m)` is a `Forbidden` error,
/// `(false, m)` an `InvalidArgument` error, each with the text `m`.
pub open spec fn answers(o: Result<(), (bool, Seq<char>)>, r: Result<(), StoreError>) -> bool {
    match o {
        Ok(()) => r is Ok,
        Err((true, m)) => r matches Err(StoreError::Forbidden(x)) && x@ == m,
        Err((false, m)) => r matches Err(StoreError::InvalidArgument(x)) && x@ == m,
    }
}

/// Checks that an invitation may be resent: it belongs to the organization
/// and is neither accepted, revoked nor expired.
pub fn check_resend(invite: &InviteState, org_id: u128, now: DateTime) -> (r: Result<(), StoreError>)
    ensures
        answers(resend_outcome(*invite, org_id, now), r),
{
    if invite.organization_id != org_id {
        Err(StoreError::Forbidden("Invite does not belong to this organization".to_owned()))
    } else if invite.accepted {
        Err(StoreError::InvalidArgument("Invite already accepted".to_owned()))
    } else if invite.revoked {
        Err(StoreError::InvalidArgument("Invite is revoked".to_owned()))
    } else if invite.expires_at.nanos < now.nanos {
        Err(StoreError::InvalidArgument("Invite is expired. Revoke it and create a new one.".to_owned()))
    } else {
        Ok(())
    }
}

/// Checks that an invitation may be revoked: it belongs to the organization
/// and is neither accepted nor revoked already.
pub fn check_revoke(invite: &InviteState, org_id: u128) -> (r: Result<(), StoreError>)
    ensures
        answers(revoke_outcome(*invite, org_id), r),
{
    if invite.organization_id != org_id {
        Err(StoreError::Forbidden("Invite does not belong to this organization".to_owned()))
    } else if invite.accepted {
        Err(StoreError::InvalidArgument("Invite already accepted".to_owned()))
    } else if invite.revoked {
        Err(StoreError::InvalidArgument("Invite already revoked".to_owned()))
    } else {
        Ok(())
    }
}

/// Checks that an invitation link may be shown: neither revoked, accepted
/// nor expired.
pub fn check_invite_link(invite: &InviteState, now: DateTime) -> (r: Result<(), StoreError>)
    ensures
        (invite.revoked || invite.accepted || expired(*invite, now)) ==> (r matches Err(StoreError::InvalidArgument(m))
            && m@ == "Invalid or expired invite link"@),
        !(invite.revoked || invite.accepted || expired(*invite, now)) ==> r is Ok,
{
    if invite.revoked || invite.accepted || invite.expires_at.nanos < now.nanos {
        Err(StoreError::InvalidArgument("Invalid or expired invite link".to_owned()))
    } else {
        Ok(())
    }
}

/// Checks that `user_email` may accept the invitation: it is unused, valid,
/// and addressed to them (compared without case).
pub fn check_accept(invite: &InviteState, now: DateTime, invited_email: &str, user_email: &str) -> (r: Result<(), StoreError>)
    ensures
        answers(accept_outcome(*invite, now, invited_email@, user_email@), r),
        invite.expires_at.nanos < now.nanos ==> r is Err,
        !invite.accepted && invite.expires_at.nanos < now.nanos ==> (r matches Err(StoreError::InvalidArgument(m))
            && m@ == "Invalid or expired invite link"@),
        r is Ok ==> !invite.accepted && !invite.revoked && now.nanos <= invite.expires_at.nanos,
{
    proof {
        law_only_live_invites_are_accepted(*invite, now, invited_email@, user_email@);
    }
    if invite.accepted {
        return Err(StoreError::InvalidArgument("This invite has already been used".to_owned()));
    }
    if invite.revoked || invite.expires_at.nanos < now.nanos {
        return Err(StoreError::InvalidArgument("Invalid or expired invite link".to_owned()));
    }
    let a = to_lowercase(invited_email);
    let b = to_lowercase(user_email);
    if a != b {
        return Err(StoreError::Forbidden("This invite is not valid for your account".to_owned()));
    }
    Ok(())
}

/// Checks that the accepting user is not a member already.
pub fn check_not_member(already_member: bool) -> (r: Result<(), StoreError>)
    ensures
        already_member ==> (r matches Err(StoreError::InvalidArgument(m))
            && m@ == "You are already a member of this organization"@),
        !already_member ==> r is Ok,
{
    if already_member {
        Err(StoreError::InvalidArgument("You are already a member of this organization".to_owned()))
    } else {
        Ok(())
    }
}

/// Checks that a member may leave: the last admin may not.
pub fn check_leave(role: OrganizationUserRole, admin_count: i64) -> (r: Result<(), StoreError>)
    ensures
        role is Admin && admin_count <= 1 ==> (r matches Err(StoreError::InvalidArgument(m))
            && m@ == "Last admin cannot leave the organization. Transfer the admin role first."@),
        !(role is Admin && admin_count <= 1) ==> r is Ok,
{
    match role {
        OrganizationUserRole::Admin => {
            if admin_count <= 1 {
                Err(StoreError::InvalidArgument(
                    "Last admin cannot leave the organization. Transfer the admin role first.".to_owned(),
                ))
            } else {
                Ok(())
            }
        },
        OrganizationUserRole::Member => Ok(()),
    }
}

/// Checks that `actor` may remove `target`: only an admin, and not
/// themselves.
pub fn check_remove_member(actor_role: OrganizationUserRole, actor: u128, target: u128) -> (r: Result<(), StoreError>)
    ensures
        actor_role is Member ==> (r matches Err(StoreError::Forbidden(m)) && m@ == "Only admins can remove members"@),
        actor_role is Admin && actor == target ==> (r matches Err(StoreError::InvalidArgument(m))
            && m@ == "Cannot remove yourself. Use LeaveOrganization instead."@),
        actor_role is Admin && actor != target ==> r is Ok,
{
    match actor_role {
        OrganizationUserRole::Member => Err(StoreError::Forbidden("Only admins can remove members".to_owned())),
        OrganizationUserRole::Admin => {
            if actor == target {
                Err(StoreError::InvalidArgument("Cannot remove yourself. Use LeaveOrganization instead.".to_owned()))
            } else {
                Ok(())
            }
        },
    }
}

/// The invitation once accepted.
pub open spec fn accepted_state(invite: InviteState) -> InviteState {
    InviteState { accepted: true, ..invite }
}

/// The invitation once revoked.
pub open spec fn revoked_state(invite: InviteState) -> InviteState {
    InviteState { revoked: true, ..invite }
}

/// An invitation is used once: after it is accepted, accepting it again,
/// resending or revoking it are all refused.
pub proof fn law_invite_single_use(invite: InviteState, org_id: u128, now: DateTime, invited: Seq<char>, user: Seq<char>)
    requires
        invite.organization_id == org_id,
        accept_outcome(invite, now, invited, user) is Ok,
    ensures
        accept_outcome(accepted_state(invite), now, invited, user) == Err::<(), (bool, Seq<char>)>((false, "This invite has already been used"@)),
        resend_outcome(accepted_state(invite), org_id, now) is Err,
        revoke_outcome(accepted_state(invite), org_id) is Err,
{
}

/// A revoked invitation can no longer be accepted, resent or revoked, and
/// its link is invalid.
pub proof fn law_revoked_invite_is_dead(invite: InviteState, org_id: u128, now: DateTime, invited: Seq<char>, user: Seq<char>)
    requires
        revoke_outcome(invite, org_id) is Ok,
    ensures
        accept_outcome(revoked_state(invite), now, invited, user) == Err::<(), (bool, Seq<char>)>((false, "Invalid or expired invite link"@)),
        resend_outcome(revoked_state(invite), org_id, now) == Err::<(), (bool, Seq<char>)>((false, "Invite is revoked"@)),
        revoke_outcome(revoked_state(invite), org_id) == Err::<(), (bool, Seq<char>)>((false, "Invite already revoked"@)),
{
}

/// Only a live invitation is accepted: one already used, revoked, or whose
/// expiry lies before the moment of acceptance is refused (an expired or
/// revoked one with "Invalid or expired invite link"), and an accepted one
/// is addressed to the accepting user (compared without case).
pub proof fn law_only_live_invites_are_accepted(invite: InviteState, now: DateTime, invited_email: Seq<char>, user_email: Seq<char>)
    ensures
        invite.accepted || invite.revoked || invite.expires_at.nanos < now.nanos
            ==> accept_outcome(invite, now, invited_email, user_email) is Err,
        !invite.accepted && (invite.revoked || invite.expires_at.nanos < now.nanos)
            ==> accept_outcome(invite, now, invited_email, user_email) == Err::<(), (bool, Seq<char>)>((false, "Invalid or expired invite link"@)),
        accept_outcome(invite, now, invited_email, user_email) is Ok ==> (!invite.accepted && !invite.revoked
            && now.nanos <= invite.expires_at.nanos && lowercase(invited_email) == lowercase(user_email)),
{
}

/// An invitation whose expiry lies before `now` is not resent.
pub proof fn law_expired_invites_are_not_resent(invite: InviteState, org_id: u128, now: DateTime)
    ensures
        invite.expires_at.nanos < now.nanos ==> resend_outcome(invite, org_id, now) is Err,
{
}

} // verus!
