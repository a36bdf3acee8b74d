//! The one-entry cache of a user's id, kept between runs of the bot.
use vstd::prelude::*;
use crate::commands::same_text;

verus! {

/// A user's login name and the id that Twitch gave for it.
#[derive(Clone, Debug, PartialEq, Eq)]
pub struct UserCache {
    pub user_id: String,
    pub username: String,
}

/// The id of `username` that a stored entry gives, if any.
pub open spec fn cached_id_spec(stored: Option<UserCache>, username: Seq<char>) -> Option<String> {
    match stored {
        Some(c) => if c.username@ == username {
            Some(c.user_id)
        } else {
            None
        },
        None => None,
    }
}

impl UserCache {
    /// The entry that records `user_id` for `username`.
    pub fn new(user_id: String, username: &str) -> (r: Self)
        ensures
            r.user_id == user_id,
            r.username@ == username@,
    {
        UserCache { user_id, username: username.to_owned() }
    }

    /// The stored entry, if there is one and it is for `username`.
    pub fn for_user(stored: Option<UserCache>, username: &str) -> (r: Option<UserCache>)
        ensures
            r == (match stored {
                Some(c) => if c.username@ == username@ {
                    Some(c)
                } else {
                    None
                },
                None => None,
            }),
    {
        match stored {
            Some(c) => {
                if same_text(c.username.as_str(), username) {
                    Some(c)
                } else {
                    None
                }
            },
            None => None,
        }
    }

    /// The id of `username` that the stored entry gives, if any.
    pub fn cached_id(stored: Option<UserCache>, username: &str) -> (r: Option<String>)
        ensures
            r == cached_id_spec(stored, username@),
    {
        match UserCache::for_user(stored, username) {
            Some(c) => Some(c.user_id),
            None => None,
        }
    }
}

/// Storing a user's id and reading it back under the same name gives the
/// id; under another name it gives nothing.
pub proof fn lemma_cache_round_trip(c: UserCache, other: Seq<char>)
    ensures
        cached_id_spec(Some(c), c.username@) == Some(c.user_id),
        other != c.username@ ==> cached_id_spec(Some(c), other) is None,
{
}

} // verus!
