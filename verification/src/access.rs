use vstd::prelude::*;
use crate::error::ApiError;
use crate::text::str_eq;
use crate::uploads::views;

verus! {

/// Admits a user to a project: the project must exist and belong to the user.
/// `owner` is the owning user of the project looked up, or `None` when there
/// is no such project.
pub fn ensure_project_owner(owner: Option<&str>, user_id: &str) -> (r: Result<(), ApiError>)
    ensures
        owner is None ==> (r matches Err(e) && e is NotFound),
        owner matches Some(o) ==> (r is Ok <==> o@ == user_id@),
        owner matches Some(o) && o@ != user_id@ ==> (r matches Err(e) && e is Forbidden),
{
    match owner {
        None => Err(ApiError::NotFound),
        Some(o) => if str_eq(o, user_id) {
            Ok(())
        } else {
            Err(ApiError::Forbidden)
        },
    }
}

/// How a listing limited to the user's projects proceeds.
#[derive(Debug)]
pub enum Listing {
    /// The user owns no project: the list is empty.
    Empty,
    /// List within these projects.
    Within,
}

/// Decides a listing over the user's projects, optionally narrowed to one
/// project: nothing to list when the user owns none; refused when the narrowed
/// project is not among them.
pub fn listing_scope(owned: &Vec<String>, requested: Option<&str>) -> (r: Result<Listing, ApiError>)
    ensures
        owned@.len() == 0 ==> (r matches Ok(l) && l is Empty),
        owned@.len() > 0 ==> match requested {
            None => r matches Ok(l) && l is Within,
            Some(p) => if views(owned@).contains(p@) {
                r matches Ok(l) && l is Within
            } else {
                r matches Err(e) && e is Forbidden
            },
        },
{
    if owned.len() == 0 {
        return Ok(Listing::Empty);
    }
    match requested {
        None => Ok(Listing::Within),
        Some(p) => {
            let n = owned.len();
            for i in 0..n
                invariant
                    n == owned@.len(),
                    requested == Some(p),
                    forall|j: int| 0 <= j < i ==> owned@[j]@ != p@,
            {
                if str_eq(owned[i].as_str(), p) {
                    assert(views(owned@)[i as int] == p@);
                    return Ok(Listing::Within);
                }
            }
            proof {
                if views(owned@).contains(p@) {
                    let j = choose|j: int| 0 <= j < views(owned@).len() && views(owned@)[j] == p@;
                    assert(owned@[j]@ == p@);
                }
            }
            Err(ApiError::Forbidden)
        },
    }
}

} // verus!
