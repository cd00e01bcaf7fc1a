//! The request logic: validation, store calls, and the outcome of each request.
use crate::model::{ApiError, CreateUserRequest, User};
use crate::outside::{format_uuid, parse_uuid, random_uuid, trim_of, trim_text, uuid_parse_result};
use crate::store::{listed_in_order, user_lt, UserStore};
use crate::text::{has_uuid_shape, is_ascii_blank, is_uuid_shape, text_lt};
use vstd::prelude::*;
use vstd::string::*;

verus! {

/// A text that is empty once trimmed.
pub open spec fn is_blank(s: Seq<char>) -> bool {
    trim_of(s).len() == 0
}

/// The message of a creation that lacks a name or an email.
pub open spec fn missing_fields_message() -> Seq<char> {
    "name and email are required"@
}

/// The message of an identifier that does not parse.
pub open spec fn invalid_id_message() -> Seq<char> {
    "invalid UUID"@
}

/// The outcome of looking `id` up in the records `m`.
pub open spec fn lookup(m: Map<u128, User>, id: u128) -> Result<User, ApiError> {
    if m.contains_key(id) {
        Ok(m[id])
    } else {
        Err(ApiError::NotFound)
    }
}

/// `post` is `pre` with `u` added under an identifier that `pre` did not hold.
pub open spec fn created(pre: Map<u128, User>, post: Map<u128, User>, u: User) -> bool {
    !pre.contains_key(u.id) && post == pre.insert(u.id, u)
}

/// Whether a trimmed text is empty.
fn blank(s: &String) -> (r: bool)
    ensures
        r == is_blank(s@),
        is_ascii_blank(s@) ==> r,
{
    trim_text(s.as_str()).is_empty()
}

/// Checks that a creation request has a name and an email that are not blank.
pub fn validate_request(req: &CreateUserRequest) -> (r: Result<(), ApiError>)
    ensures
        is_blank(req.name@) || is_blank(req.email@) ==> (r matches Err(ApiError::BadRequest(m))
            && m@ == missing_fields_message()),
        !is_blank(req.name@) && !is_blank(req.email@) ==> r is Ok,
        is_ascii_blank(req.name@) || is_ascii_blank(req.email@) ==> r is Err,
{
    if blank(&req.name) || blank(&req.email) {
        Err(ApiError::BadRequest(String::from_str("name and email are required")))
    } else {
        Ok(())
    }
}

/// Creates a user from `req` under the identifier `id`. A blank name or email
/// is refused and leaves the store as it was; so does an identifier already in
/// use, as an internal failure.
pub fn create_user_with_id(store: &mut UserStore, req: CreateUserRequest, id: u128) -> (r:
    Result<User, ApiError>)
    requires
        old(store).wf(),
    ensures
        final(store).wf(),
        is_blank(req.name@) || is_blank(req.email@) ==> final(store)@ == old(store)@ && (
        r matches Err(ApiError::BadRequest(m)) && m@ == missing_fields_message()),
        is_ascii_blank(req.name@) || is_ascii_blank(req.email@) ==> final(store)@ == old(store)@
            && r is Err,
        !is_blank(req.name@) && !is_blank(req.email@) && old(store)@.contains_key(id)
            ==> final(store)@ == old(store)@ && r == Err::<User, ApiError>(ApiError::Internal),
        !is_blank(req.name@) && !is_blank(req.email@) && !old(store)@.contains_key(id) ==> r
            == Ok::<User, ApiError>(User { id, name: req.name, email: req.email })
            && final(store)@ == old(store)@.insert(id, User { id, name: req.name, email: req.email }),
{
    if let Err(e) = validate_request(&req) {
        return Err(e);
    }
    if store.get(id).is_some() {
        return Err(ApiError::Internal);
    }
    let user = User { id, name: req.name, email: req.email };
    store.insert(user.clone());
    Ok(user)
}

/// Creates a user from `req` under a fresh random identifier. It succeeds on a
/// valid request unless the drawn identifier is already taken.
pub fn create_user(store: &mut UserStore, req: CreateUserRequest) -> (r: Result<User, ApiError>)
    requires
        old(store).wf(),
    ensures
        final(store).wf(),
        is_blank(req.name@) || is_blank(req.email@) ==> final(store)@ == old(store)@ && (
        r matches Err(ApiError::BadRequest(m)) && m@ == missing_fields_message()),
        is_ascii_blank(req.name@) || is_ascii_blank(req.email@) ==> final(store)@ == old(store)@
            && r is Err,
        !is_blank(req.name@) && !is_blank(req.email@) ==> r is Ok || (r == Err::<
            User,
            ApiError,
        >(ApiError::Internal) && final(store)@ == old(store)@ && exists|k: u128|
            #[trigger] old(store)@.contains_key(k)),
        r matches Ok(u) ==> created(old(store)@, final(store)@, u) && u.name == req.name
            && u.email == req.email,
        r is Err ==> final(store)@ == old(store)@,
{
    let id = random_uuid();
    create_user_with_id(store, req, id)
}

/// The record stored under `id`, or `NotFound`.
pub fn find_user(store: &UserStore, id: u128) -> (r: Result<User, ApiError>)
    requires
        store.wf(),
    ensures
        r == lookup(store@, id),
        r matches Ok(u) ==> u.id == id,
{
    match store.get(id) {
        Some(u) => Ok(u),
        None => Err(ApiError::NotFound),
    }
}

/// Reads an identifier from its hyphenated text; any other text is refused.
pub fn parse_user_id(id_text: &str) -> (r: Result<u128, ApiError>)
    ensures
        !is_uuid_shape(id_text@) ==> (r matches Err(ApiError::BadRequest(m)) && m@
            == invalid_id_message()),
        is_uuid_shape(id_text@) ==> uuid_parse_result(id_text@) is Some && r == Ok::<
            u128,
            ApiError,
        >(uuid_parse_result(id_text@)->0),
{
    if !has_uuid_shape(id_text) {
        return Err(ApiError::BadRequest(String::from_str("invalid UUID")));
    }
    match parse_uuid(id_text) {
        Some(id) => Ok(id),
        None => Err(ApiError::BadRequest(String::from_str("invalid UUID"))),
    }
}

/// The record named by the identifier text `id_text`: a text that is not of the
/// hyphenated identifier form is refused before the store is read.
pub fn get_user(store: &UserStore, id_text: &str) -> (r: Result<User, ApiError>)
    requires
        store.wf(),
    ensures
        !is_uuid_shape(id_text@) ==> (r matches Err(ApiError::BadRequest(m)) && m@
            == invalid_id_message()),
        is_uuid_shape(id_text@) ==> uuid_parse_result(id_text@) is Some && r == lookup(
            store@,
            uuid_parse_result(id_text@)->0,
        ),
        r matches Ok(u) ==> uuid_parse_result(id_text@) == Some(u.id),
{
    match parse_user_id(id_text) {
        Err(e) => Err(e),
        Ok(id) => find_user(store, id),
    }
}

/// All records, non-decreasing by name.
pub fn list_users(store: &UserStore) -> (r: Vec<User>)
    requires
        store.wf(),
    ensures
        listed_in_order(r@),
        r@.len() == store@.len(),
        forall|j: int|
            0 <= j < r@.len() ==> store@.contains_key(#[trigger] r@[j].id) && store@[r@[j].id]
                == r@[j],
        forall|i: int, j: int| 0 <= i < j < r@.len() ==> !text_lt(r@[j].name@, r@[i].name@),
{
    let r = store.list();
    proof {
        assert forall|i: int, j: int| 0 <= i < j < r@.len() implies !text_lt(
            r@[j].name@,
            r@[i].name@,
        ) by {
            assert(user_lt(r@[i], r@[j]));
            crate::store::lemma_user_lt_name_order(r@[i], r@[j]);
        }
    }
    r
}

impl User {
    /// The identifier in its hyphenated text form; `get_user` reads it back.
    pub fn id_text(&self) -> (r: String)
        ensures
            r@ == crate::outside::uuid_text(self.id),
            is_uuid_shape(r@),
            uuid_parse_result(r@) == Some(self.id),
    {
        format_uuid(self.id)
    }
}

/// The identifiers of a run of successful creations are pairwise distinct.
pub proof fn lemma_created_ids_distinct(states: Seq<Map<u128, User>>, users: Seq<User>)
    requires
        states.len() == users.len() + 1,
        forall|i: int| 0 <= i < users.len() ==> created(states[i], states[i + 1], #[trigger] users[i]),
    ensures
        forall|i: int, j: int| 0 <= i < j < users.len() ==> users[i].id != users[j].id,
{
    assert forall|i: int, j: int| 0 <= i < j < users.len() implies users[i].id != users[j].id by {
        lemma_created_key_stays(states, users, i, j);
        assert(created(states[j], states[j + 1], users[j]));
    }
}

proof fn lemma_created_key_stays(states: Seq<Map<u128, User>>, users: Seq<User>, i: int, k: int)
    requires
        states.len() == users.len() + 1,
        forall|i: int| 0 <= i < users.len() ==> created(states[i], states[i + 1], #[trigger] users[i]),
        0 <= i < k <= users.len(),
    ensures
        states[k].contains_key(users[i].id),
    decreases k - i,
{
    assert(created(states[k - 1], states[k], users[k - 1]));
    if k - 1 > i {
        lemma_created_key_stays(states, users, i, k - 1);
    }
}

/// A created record is found again under its identifier, equal to what was returned.
pub proof fn lemma_created_then_found(pre: Map<u128, User>, post: Map<u128, User>, u: User)
    requires
        created(pre, post, u),
    ensures
        lookup(post, u.id) == Ok::<User, ApiError>(u),
{
}

/// An identifier that the store does not hold is not found, whatever else it holds.
pub proof fn lemma_unknown_id_not_found(m: Map<u128, User>, id: u128)
    requires
        !m.contains_key(id),
    ensures
        lookup(m, id) == Err::<User, ApiError>(ApiError::NotFound),
{
}

} // verus!
