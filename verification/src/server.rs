//! The request handlers' decision logic: given a request as plain values,
//! what response is owed. The surrounding HTTP plumbing performs the
//! transport and hands the requests in.

use vstd::prelude::*;
use vstd::string::StringExecFns;

use crate::fixtures::{
    GetUserRequest, GetUserResponse, ListUsersRequest, ListUsersResponse, User,
};
use crate::strutil::{dec_digits, push_u64_dec};

verus! {

/// The users the mock store knows: ids strictly between 0 and 1000.
pub open spec fn known_user(user_id: u64) -> bool {
    0 < user_id < 1000
}

/// The name the mock store gives user `id`.
pub open spec fn user_name_chars(id: int) -> Seq<char> {
    "User "@ + dec_digits(id as nat)
}

/// The email the mock store gives user `id`.
pub open spec fn user_email_chars(id: int) -> Seq<char> {
    "user"@ + dec_digits(id as nat) + "@example.com"@
}

/// A user record as the mock store returns it.
pub open spec fn mock_user_ok(u: User, id: int, active: bool) -> bool {
    &&& u.id == id
    &&& u.name@ == user_name_chars(id)
    &&& u.email@ == user_email_chars(id)
    &&& u.active == active
}

/// Looks a user up: a known id yields its mock record, marked active; any
/// other id yields no user.
pub fn get_user(request: GetUserRequest) -> (r: GetUserResponse)
    ensures
        match r.user {
            Option::Some(u) => known_user(request.user_id) && mock_user_ok(
                u,
                request.user_id as int,
                true,
            ),
            Option::None => !known_user(request.user_id),
        },
{
    if request.user_id > 0 && request.user_id < 1000 {
        let mut name = String::new();
        name.append("User ");
        push_u64_dec(&mut name, request.user_id);
        let mut email = String::new();
        email.append("user");
        push_u64_dec(&mut email, request.user_id);
        email.append("@example.com");
        GetUserResponse {
            user: Option::Some(
                User { id: request.user_id, name, email, active: true },
            ),
        }
    } else {
        GetUserResponse { user: Option::None }
    }
}

/// The page size after clamping to 1..=100.
pub open spec fn clamped_per_page(pp: u32) -> u32 {
    if pp > 100 {
        100
    } else if pp < 1 {
        1
    } else {
        pp
    }
}

/// The page number after flooring at 1.
pub open spec fn floored_page(p: u32) -> u32 {
    if p < 1 {
        1
    } else {
        p
    }
}

/// Whether a user with the given activity passes the filter: `active`
/// keeps active users, `inactive` the others, anything else everyone.
pub open spec fn keeps(filter: Option<Seq<char>>, active: bool) -> bool {
    match filter {
        Option::Some(f) => if f == "active"@ {
            active
        } else if f == "inactive"@ {
            !active
        } else {
            true
        },
        Option::None => true,
    }
}

/// The ids of the page `start .. start + count` that pass the filter, in
/// order; a user is active exactly when its id is even.
pub open spec fn page_ids(start: int, count: int, filter: Option<Seq<char>>) -> Seq<int>
    decreases count,
{
    if count <= 0 {
        Seq::empty()
    } else {
        page_ids(start, count - 1, filter) + (if keeps(filter, (start + count - 1) % 2 == 0) {
            seq![start + count - 1]
        } else {
            Seq::empty()
        })
    }
}

/// The view of the request filter.
pub open spec fn filter_view(f: Option<String>) -> Option<Seq<char>> {
    match f {
        Option::Some(s) => Option::Some(s@),
        Option::None => Option::None,
    }
}

/// Lists one page of mock users: the page size clamped to 1..=100, the
/// page floored at 1, ids counted from the page start, filtered by the
/// requested activity, each record as the mock store gives it, and a fixed
/// total of 1000.
#[verifier::loop_isolation(false)]
pub fn list_users(request: ListUsersRequest) -> (r: ListUsersResponse)
    ensures
        r.total == 1000,
        r.page == floored_page(request.page),
        r.per_page == clamped_per_page(request.per_page),
        ({
            let start = (floored_page(request.page) - 1) * clamped_per_page(request.per_page)
                + 1;
            let ids = page_ids(
                start,
                clamped_per_page(request.per_page) as int,
                filter_view(request.filter),
            );
            &&& r.users@.len() == ids.len()
            &&& forall|i: int|
                0 <= i < ids.len() ==> mock_user_ok(#[trigger] r.users@[i], ids[i], ids[i] % 2
                    == 0)
        }),
{
    let per_page: u32 = if request.per_page > 100 {
        100
    } else if request.per_page < 1 {
        1
    } else {
        request.per_page
    };
    let page: u32 = if request.page < 1 {
        1
    } else {
        request.page
    };
    proof {
        assert(((page - 1) as u64) * (per_page as u64) <= 0xFFFFFFFFu64 * 100) by (
        nonlinear_arith)
            requires
                (page - 1) as u64 <= 0xFFFFFFFFu64,
                per_page as u64 <= 100,
        ;
    }
    let start_id: u64 = ((page - 1) as u64) * (per_page as u64) + 1;
    let ghost filt = filter_view(request.filter);
    let mut users: Vec<User> = Vec::new();
    let mut i: u32 = 0;
    while i < per_page
        invariant
            i <= per_page,
            start_id == ((page - 1) as u64) * (per_page as u64) + 1,
            start_id + per_page < 0x8000000000000000,
            users@.len() == page_ids(start_id as int, i as int, filt).len(),
            forall|j: int|
                0 <= j < users@.len() ==> mock_user_ok(
                    #[trigger] users@[j],
                    page_ids(start_id as int, i as int, filt)[j],
                    page_ids(start_id as int, i as int, filt)[j] % 2 == 0,
                ),
        decreases per_page - i,
    {
        let id: u64 = start_id + (i as u64);
        let active = id % 2 == 0;
        let keep: bool = match &request.filter {
            Option::Some(f) => {
                if crate::strutil::str_eq(f.as_str(), "active") {
                    active
                } else if crate::strutil::str_eq(f.as_str(), "inactive") {
                    !active
                } else {
                    true
                }
            }
            Option::None => true,
        };
        let ghost before = users@;
        if keep {
            let mut name = String::new();
            name.append("User ");
            push_u64_dec(&mut name, id);
            let mut email = String::new();
            email.append("user");
            push_u64_dec(&mut email, id);
            email.append("@example.com");
            users.push(User { id, name, email, active });
        }
        proof {
            let prev = page_ids(start_id as int, i as int, filt);
            let next = page_ids(start_id as int, i as int + 1, filt);
            assert(keep == keeps(filt, (start_id + i) % 2 == 0));
            if keep {
                assert(next =~= prev + seq![start_id as int + i]);
            } else {
                assert(next =~= prev);
            }
        }
        i = i + 1;
    }
    ListUsersResponse { users, total: 1000, page, per_page }
}

} // verus!
