//! The members of an organization as they are listed: each membership joined
//! with the summary of its identity, larger shares first.

use crate::accounts::{id_taken, UserDirectory};
use crate::error::AppError;
use crate::ids::Id;
use crate::models::organization::{
    OrganizationMember, OrganizationMemberWithUser, OrganizationWithMembers,
};
use crate::models::user::User;
use crate::organizations::{has_organization, MembershipManager};
use vstd::prelude::*;
use vstd::seq_lib::{to_multiset_build, to_multiset_insert};

verus! {

/// Whether a share stands no later than another in a listing: larger shares
/// first, and memberships without a share last.
pub open spec fn outranks(a: Option<i64>, b: Option<i64>) -> bool {
    match (a, b) {
        (Some(x), Some(y)) => x >= y,
        (Some(_), None) => true,
        (None, Some(_)) => false,
        (None, None) => true,
    }
}

/// Whether rows stand by descending share, those without a share last.
pub open spec fn is_ordered(rows: Seq<OrganizationMemberWithUser>) -> bool {
    forall|i: int, j: int|
        0 <= i < j < rows.len() ==> outranks(
            (#[trigger] rows[i]).share_percentage,
            (#[trigger] rows[j]).share_percentage,
        )
}

/// The identity with the identifier `id`.
pub open spec fn spec_user(users: Seq<User>, id: Id) -> User {
    users[choose|i: int| 0 <= i < users.len() && (#[trigger] users[i]).id == id]
}

/// A membership joined with the summary of its identity.
pub open spec fn spec_row(member: OrganizationMember, user: User) -> OrganizationMemberWithUser {
    OrganizationMemberWithUser {
        id: member.id,
        role: member.role,
        share_percentage: member.share_percentage,
        user_id: member.user_id,
        user_name: user.name,
        user_email: user.email,
    }
}

/// Whether the membership at `at` is listed for an organization: it is one of
/// the organization's, and its identity is stored.
pub open spec fn is_row(
    members: Seq<OrganizationMember>,
    users: Seq<User>,
    organization: Id,
    at: int,
) -> bool {
    members[at].organization_id == organization && id_taken(users, members[at].user_id)
}

/// The rows of the first `upto` memberships, in the order of the memberships.
pub open spec fn spec_joined(
    members: Seq<OrganizationMember>,
    users: Seq<User>,
    organization: Id,
    upto: int,
) -> Seq<OrganizationMemberWithUser>
    decreases upto,
{
    if upto <= 0 {
        Seq::empty()
    } else {
        let earlier = spec_joined(members, users, organization, upto - 1);
        if is_row(members, users, organization, upto - 1) {
            earlier.push(spec_row(members[upto - 1], spec_user(users, members[upto - 1].user_id)))
        } else {
            earlier
        }
    }
}

/// Where a row with the share `share` goes into ordered rows: before the
/// first row from `from` on that it strictly outranks, or at the end.
pub open spec fn spec_place(
    rows: Seq<OrganizationMemberWithUser>,
    share: Option<i64>,
    from: int,
) -> int
    decreases rows.len() - from,
{
    if from < 0 || from >= rows.len() {
        rows.len() as int
    } else if !outranks(rows[from].share_percentage, share) {
        from
    } else {
        spec_place(rows, share, from + 1)
    }
}

/// Ordered rows with one more row in its place.
pub open spec fn spec_placed(
    rows: Seq<OrganizationMemberWithUser>,
    row: OrganizationMemberWithUser,
) -> Seq<OrganizationMemberWithUser> {
    rows.insert(spec_place(rows, row.share_percentage, 0), row)
}

/// The first `upto` of `rows`, ordered: each row placed in turn, so that rows
/// of equal share keep the order they came in.
pub open spec fn spec_ordered(rows: Seq<OrganizationMemberWithUser>, upto: int) -> Seq<
    OrganizationMemberWithUser,
>
    decreases upto,
{
    if upto <= 0 {
        Seq::empty()
    } else {
        spec_placed(spec_ordered(rows, upto - 1), rows[upto - 1])
    }
}

/// The members of an organization as they are listed: each membership joined
/// with its identity, by descending share, those without a share last.
pub open spec fn spec_listing(
    members: Seq<OrganizationMember>,
    users: Seq<User>,
    organization: Id,
) -> Seq<OrganizationMemberWithUser> {
    let joined = spec_joined(members, users, organization, members.len() as int);
    spec_ordered(joined, joined.len() as int)
}

/// The place of a row lies within the rows, every row before it outranks the
/// row, and the row strictly outranks the one at its place.
proof fn lemma_place(rows: Seq<OrganizationMemberWithUser>, share: Option<i64>, from: int)
    requires
        0 <= from <= rows.len(),
    ensures
        from <= spec_place(rows, share, from) <= rows.len(),
        forall|k: int|
            from <= k < spec_place(rows, share, from) ==> outranks(
                (#[trigger] rows[k]).share_percentage,
                share,
            ),
        spec_place(rows, share, from) < rows.len() ==> !outranks(
            rows[spec_place(rows, share, from)].share_percentage,
            share,
        ),
    decreases rows.len() - from,
{
    if from < rows.len() && outranks(rows[from].share_percentage, share) {
        lemma_place(rows, share, from + 1);
    }
}

/// Placing a row into ordered rows leaves them ordered and adds just the row.
proof fn lemma_placed(rows: Seq<OrganizationMemberWithUser>, row: OrganizationMemberWithUser)
    requires
        is_ordered(rows),
    ensures
        is_ordered(spec_placed(rows, row)),
        spec_placed(rows, row).len() == rows.len() + 1,
        spec_placed(rows, row).to_multiset() == rows.to_multiset().insert(row),
{
    lemma_place(rows, row.share_percentage, 0);
    let at = spec_place(rows, row.share_percentage, 0);
    let placed = spec_placed(rows, row);
    to_multiset_insert(rows, at, row);
    assert forall|i: int, j: int| 0 <= i < j < placed.len() implies outranks(
        (#[trigger] placed[i]).share_percentage,
        (#[trigger] placed[j]).share_percentage,
    ) by {
        if j < at {
            assert(placed[i] == rows[i] && placed[j] == rows[j]);
        } else if j == at {
            assert(placed[i] == rows[i]);
        } else if i < at {
            assert(placed[i] == rows[i] && placed[j] == rows[j - 1]);
        } else if i == at {
            assert(placed[j] == rows[j - 1]);
            if j - 1 > at {
                assert(outranks(rows[at].share_percentage, rows[j - 1].share_percentage));
            }
        } else {
            assert(placed[i] == rows[i - 1] && placed[j] == rows[j - 1]);
        }
    }
}

/// Rows put in order are ordered, and are the same rows.
proof fn lemma_ordered(rows: Seq<OrganizationMemberWithUser>, upto: int)
    requires
        0 <= upto <= rows.len(),
    ensures
        is_ordered(spec_ordered(rows, upto)),
        spec_ordered(rows, upto).len() == upto,
        spec_ordered(rows, upto).to_multiset() == rows.take(upto).to_multiset(),
    decreases upto,
{
    if upto > 0 {
        lemma_ordered(rows, upto - 1);
        lemma_placed(spec_ordered(rows, upto - 1), rows[upto - 1]);
        assert(rows.take(upto) =~= rows.take(upto - 1).push(rows[upto - 1]));
        to_multiset_build(rows.take(upto - 1), rows[upto - 1]);
    } else {
        assert(rows.take(0) =~= Seq::<OrganizationMemberWithUser>::empty());
    }
}

/// A listing stands by descending share, the rows without a share last.
pub proof fn listing_is_ordered(
    members: Seq<OrganizationMember>,
    users: Seq<User>,
    organization: Id,
)
    ensures
        is_ordered(spec_listing(members, users, organization)),
{
    let joined = spec_joined(members, users, organization, members.len() as int);
    lemma_ordered(joined, joined.len() as int);
}

/// A listing holds the joined rows of the organization's memberships, each as
/// often as it occurs among them, and nothing else.
pub proof fn listing_holds_the_joined_rows(
    members: Seq<OrganizationMember>,
    users: Seq<User>,
    organization: Id,
)
    ensures
        spec_listing(members, users, organization).to_multiset() == spec_joined(
            members,
            users,
            organization,
            members.len() as int,
        ).to_multiset(),
        spec_listing(members, users, organization).len() == spec_joined(
            members,
            users,
            organization,
            members.len() as int,
        ).len(),
{
    let joined = spec_joined(members, users, organization, members.len() as int);
    lemma_ordered(joined, joined.len() as int);
    assert(joined.take(joined.len() as int) =~= joined);
}

impl MembershipManager {
    /// Lists the members of an organization: each membership joined with the
    /// name and email of its identity, by descending share, those without a
    /// share last, and those of equal share in the order they were added.
    /// A membership whose identity is not stored is left out.
    pub fn list_members(&self, users: &UserDirectory, organization_id: Id) -> (rows: Vec<
        OrganizationMemberWithUser,
    >)
        requires
            users.wf(),
        ensures
            rows@ == spec_listing(self.spec_members(), users@, organization_id),
    {
        let members: &Vec<OrganizationMember> = self.members();
        let mut rows: Vec<OrganizationMemberWithUser> = Vec::new();
        let ghost mut joined: Seq<OrganizationMemberWithUser> = Seq::empty();
        let mut i: usize = 0;
        while i < members.len()
            invariant
                i <= members.len(),
                users.wf(),
                joined == spec_joined(members@, users@, organization_id, i as int),
                rows@ == spec_ordered(joined, joined.len() as int),
            decreases members.len() - i,
        {
            let member: &OrganizationMember = &members[i];
            if member.organization_id == organization_id {
                match users.find_by_id(member.user_id) {
                    Some(user) => {
                        let row = OrganizationMemberWithUser {
                            id: member.id,
                            role: member.role.clone(),
                            share_percentage: member.share_percentage,
                            user_id: member.user_id,
                            user_name: user.name.clone(),
                            user_email: user.email.clone(),
                        };
                        proof {
                            let found = choose|k: int| 0 <= k < users@.len() && users@[k] == *user;
                            assert(users@[found].id == member.user_id);
                            assert(id_taken(users@, member.user_id));
                            let chosen = choose|k: int|
                                0 <= k < users@.len() && (#[trigger] users@[k]).id
                                    == member.user_id;
                            assert(chosen == found);
                            assert(row == spec_row(*member, spec_user(users@, member.user_id)));
                            let longer = joined.push(row);
                            assert(longer.take(joined.len() as int) =~= joined);
                            lemma_ordered_ignores_the_rest(longer, joined, joined.len() as int);
                            joined = longer;
                        }
                        let mut at: usize = 0;
                        while at < rows.len() && outranks_share(
                            rows[at].share_percentage,
                            row.share_percentage,
                        )
                            invariant
                                at <= rows.len(),
                                spec_place(rows@, row.share_percentage, 0) == spec_place(
                                    rows@,
                                    row.share_percentage,
                                    at as int,
                                ),
                            decreases rows.len() - at,
                        {
                            at = at + 1;
                        }
                        rows.insert(at, row);
                    },
                    None => {},
                }
            }
            i = i + 1;
        }
        rows
    }

    /// The organization `id` with its members listed, or "not found".
    pub fn get_organization(&self, users: &UserDirectory, id: Id) -> (r: Result<
        OrganizationWithMembers,
        AppError,
    >)
        requires
            users.wf(),
        ensures
            match r {
                Ok(found) => {
                    &&& found.organization.id == id
                    &&& self.spec_organizations().contains(found.organization)
                    &&& found.members@ == spec_listing(self.spec_members(), users@, id)
                },
                Err(e) => !has_organization(self.spec_organizations(), id) && (
                e matches AppError::NotFound(m) && m@ == "Organization not found"@),
            },
    {
        match self.find_organization(id) {
            Ok(organization) => Ok(
                OrganizationWithMembers {
                    organization: organization.clone(),
                    members: self.list_members(users, id),
                },
            ),
            Err(e) => Err(e),
        }
    }
}

/// Whether a share stands no later than another in a listing.
pub fn outranks_share(a: Option<i64>, b: Option<i64>) -> (r: bool)
    ensures
        r == outranks(a, b),
{
    match (a, b) {
        (Some(x), Some(y)) => x >= y,
        (Some(_), None) => true,
        (None, Some(_)) => false,
        (None, None) => true,
    }
}

/// Putting the first rows of a sequence in order does not look at the rows
/// behind.
proof fn lemma_ordered_ignores_the_rest(
    longer: Seq<OrganizationMemberWithUser>,
    rows: Seq<OrganizationMemberWithUser>,
    upto: int,
)
    requires
        0 <= upto <= rows.len() <= longer.len(),
        longer.take(rows.len() as int) == rows,
    ensures
        spec_ordered(longer, upto) == spec_ordered(rows, upto),
    decreases upto,
{
    if upto > 0 {
        lemma_ordered_ignores_the_rest(longer, rows, upto - 1);
        assert(longer.take(rows.len() as int)[upto - 1] == longer[upto - 1]);
    }
}

} // verus!
