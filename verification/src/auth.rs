use vstd::prelude::*;

verus! {

use crate::errors::AuthError;

/// An atomic capability checked against a role's resolved set.
#[derive(Debug, Clone, Copy, PartialEq, Eq, PartialOrd, Ord, Hash, Structural)]
pub enum Permission {
    ServiceRead,
    ServiceWrite,
    InstanceRead,
    InstanceWrite,
    UserManage,
}

/// A closed set of roles; each resolves statically to a fixed set of
/// permissions.
#[derive(Debug, Clone, Copy, PartialEq, Eq, Hash, Structural)]
pub enum Role {
    Admin,
    Agent,
    Viewer,
}

/// The fixed permission table: Admin holds all five permissions, Agent
/// holds {ServiceRead, InstanceRead, InstanceWrite}, Viewer holds
/// {ServiceRead, InstanceRead}. These are independent sets, not an
/// inheritance hierarchy.
pub open spec fn role_permissions(role: Role) -> Set<Permission> {
    match role {
        Role::Admin => set![
            Permission::ServiceRead,
            Permission::ServiceWrite,
            Permission::InstanceRead,
            Permission::InstanceWrite,
            Permission::UserManage,
        ],
        Role::Agent => set![
            Permission::ServiceRead,
            Permission::InstanceRead,
            Permission::InstanceWrite,
        ],
        Role::Viewer => set![Permission::ServiceRead, Permission::InstanceRead],
    }
}

impl Role {
    /// The permission set this role resolves to, as a duplicate-free
    /// vector equal (as a set) to the fixed table.
    pub fn permissions(&self) -> (r: Vec<Permission>)
        ensures
            r@.to_set() == role_permissions(*self),
            r@.no_duplicates(),
    {
        let r: Vec<Permission> = match self {
            Role::Admin => vec![
                Permission::ServiceRead,
                Permission::ServiceWrite,
                Permission::InstanceRead,
                Permission::InstanceWrite,
                Permission::UserManage,
            ],
            Role::Agent => vec![
                Permission::ServiceRead,
                Permission::InstanceRead,
                Permission::InstanceWrite,
            ],
            Role::Viewer => vec![Permission::ServiceRead, Permission::InstanceRead],
        };
        proof {
            assert(r@.to_set() =~= role_permissions(*self));
        }
        r
    }

    /// Whether this role's fixed permission set contains `p`.
    pub fn has_permission(&self, p: Permission) -> (r: bool)
        ensures
            r == role_permissions(*self).contains(p),
    {
        match (self, p) {
            (Role::Admin, _) => true,
            (Role::Agent, Permission::ServiceRead) => true,
            (Role::Agent, Permission::InstanceRead) => true,
            (Role::Agent, Permission::InstanceWrite) => true,
            (Role::Viewer, Permission::ServiceRead) => true,
            (Role::Viewer, Permission::InstanceRead) => true,
            _ => false,
        }
    }
}

/// An authentication principal: a unique common name, an optional
/// organization, and a set of roles whose union fixes the effective
/// permissions.
pub struct Identity {
    pub common_name: String,
    pub organization: Option<String>,
    pub roles: Vec<Role>,
}

/// Mathematical image of an [`Identity`].
pub struct IdentityView {
    pub common_name: Seq<char>,
    pub organization: Option<Seq<char>>,
    pub roles: Seq<Role>,
}

impl View for Identity {
    type V = IdentityView;

    open spec fn view(&self) -> IdentityView {
        IdentityView {
            common_name: self.common_name@,
            organization: match self.organization {
                Some(ref o) => Some(o@),
                None => None,
            },
            roles: self.roles@,
        }
    }
}

impl Clone for Identity {
    fn clone(&self) -> (r: Self)
        ensures
            r@ == self@,
    {
        Identity {
            common_name: self.common_name.clone(),
            organization: match &self.organization {
                Some(o) => Some(o.clone()),
                None => None,
            },
            roles: clone_roles(&self.roles),
        }
    }
}

/// Copies a role vector; roles are plain enum values.
pub fn clone_roles(roles: &Vec<Role>) -> (r: Vec<Role>)
    ensures
        r@ == roles@,
{
    let mut r: Vec<Role> = Vec::new();
    let mut i: usize = 0;
    while i < roles.len()
        invariant
            i <= roles.len(),
            r@ == roles@.take(i as int),
        decreases roles.len() - i,
    {
        r.push(roles[i]);
        i = i + 1;
        proof {
            assert(r@ =~= roles@.take(i as int));
        }
    }
    proof {
        assert(r@ =~= roles@);
    }
    r
}

/// The signed payload of an authentication token: the subject (an
/// identity's common name), the role snapshot taken at issuance, and an
/// expiry in epoch seconds.
pub struct Claims {
    pub sub: String,
    pub roles: Vec<Role>,
    pub exp: u64,
}

/// Mathematical image of [`Claims`].
pub struct ClaimsView {
    pub sub: Seq<char>,
    pub roles: Seq<Role>,
    pub exp: u64,
}

impl View for Claims {
    type V = ClaimsView;

    open spec fn view(&self) -> ClaimsView {
        ClaimsView { sub: self.sub@, roles: self.roles@, exp: self.exp }
    }
}

impl Clone for Claims {
    fn clone(&self) -> (r: Self)
        ensures
            r@ == self@,
    {
        Claims { sub: self.sub.clone(), roles: clone_roles(&self.roles), exp: self.exp }
    }
}

/// Whether any role of the sequence resolves to a set containing `p`.
pub open spec fn roles_grant(roles: Seq<Role>, p: Permission) -> bool {
    exists|i: int| 0 <= i < roles.len() && #[trigger] role_permissions(roles[i]).contains(p)
}

/// True iff any role in the claims' snapshot resolves to a set that
/// contains the required permission. Roles are the snapshot taken at
/// issuance; later revocation does not show here.
pub fn authorize(claims: &Claims, required: Permission) -> (r: bool)
    ensures
        r == roles_grant(claims@.roles, required),
{
    let mut i: usize = 0;
    while i < claims.roles.len()
        invariant
            i <= claims.roles@.len(),
            forall|j: int|
                0 <= j < i ==> !(#[trigger] role_permissions(claims.roles@[j]).contains(required)),
        decreases claims.roles@.len() - i,
    {
        if claims.roles[i].has_permission(required) {
            return true;
        }
        i = i + 1;
    }
    false
}

/// Every sensitive operation calls this before the store is
/// consulted: it succeeds exactly when some role of the claims grants
/// the required permission, and fails `InsufficientPermission`
/// otherwise.
pub fn check_permission(claims: &Claims, required: Permission) -> (r: Result<(), AuthError>)
    ensures
        match r {
            Ok(()) => roles_grant(claims@.roles, required),
            Err(e) => e == AuthError::InsufficientPermission && !roles_grant(
                claims@.roles,
                required,
            ),
        },
{
    if authorize(claims, required) {
        Ok(())
    } else {
        Err(AuthError::InsufficientPermission)
    }
}

/// The permission sets form a chain: every Viewer permission is an
/// Agent permission, and every Agent permission an Admin one; the
/// sets are otherwise independent, not an inheritance hierarchy.
pub proof fn lemma_role_lattice()
    ensures
        role_permissions(Role::Viewer).subset_of(role_permissions(Role::Agent)),
        role_permissions(Role::Agent).subset_of(role_permissions(Role::Admin)),
        !role_permissions(Role::Agent).contains(Permission::ServiceWrite),
        !role_permissions(Role::Agent).contains(Permission::UserManage),
        !role_permissions(Role::Viewer).contains(Permission::InstanceWrite),
{
    assert forall|p: Permission|
        role_permissions(Role::Viewer).contains(p) implies role_permissions(
        Role::Agent,
    ).contains(p) by {}
    assert forall|p: Permission|
        role_permissions(Role::Agent).contains(p) implies role_permissions(
        Role::Admin,
    ).contains(p) by {}
}

} // verus!
