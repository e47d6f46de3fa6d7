//! Access tokens, kept until shortly before they run out.

use crate::split::opt_text;
use vstd::prelude::*;
use vstd::string::*;

verus! {

/// A second, in the nanoseconds in which the clock on the wall is read.
pub const WALL_SECOND: u128 = 1_000_000_000;

/// How long before a token runs out it is no longer used, in seconds.
pub const TOKEN_MARGIN: u128 = 300;

/// A token, and when it runs out.
#[derive(Debug)]
pub struct TokenInfo {
    pub access_token: String,
    pub expires_at: u128,
}

/// The token of a platform.
#[derive(Debug)]
pub struct TokenCache {
    token: Option<TokenInfo>,
}

impl View for TokenCache {
    type V = Option<(Seq<char>, int)>;

    closed spec fn view(&self) -> Option<(Seq<char>, int)> {
        match self.token {
            Some(t) => Some((t.access_token@, t.expires_at as int)),
            None => None,
        }
    }
}

/// The token that can be used now, if there is one.
pub open spec fn usable(cache: Option<(Seq<char>, int)>, now: int) -> Option<Seq<char>> {
    match cache {
        Some(t) => if now + TOKEN_MARGIN * WALL_SECOND < t.1 {
            Some(t.0)
        } else {
            None
        },
        None => None,
    }
}

/// What is kept once a token was asked for: the token and when it runs out, if
/// one was given, with how many seconds it lasts; and what was kept otherwise.
pub open spec fn refreshed(
    cache: Option<(Seq<char>, int)>,
    given: Option<(Seq<char>, int)>,
    now: int,
) -> Option<(Seq<char>, int)> {
    match given {
        Some((token, expires_in)) => Some((token, now + expires_in * WALL_SECOND)),
        None => cache,
    }
}

impl TokenCache {
    /// No token.
    pub fn new() -> (r: Self)
        ensures
            r@ is None,
    {
        TokenCache { token: None }
    }

    /// The token that can be used at a time on the wall clock; where there is
    /// none a new one has to be fetched.
    pub fn get_token(&self, now: u64) -> (r: Option<String>)
        ensures
            opt_text(r) == usable(self@, now as int),
    {
        match &self.token {
            Some(t) => if (now as u128) + TOKEN_MARGIN * WALL_SECOND < t.expires_at {
                Some(t.access_token.clone())
            } else {
                None
            },
            None => None,
        }
    }

    /// Keeps a token that was fetched at a time on the wall clock and lasts so
    /// many seconds.
    pub fn store(&mut self, access_token: String, expires_in: u64, now: u64)
        ensures
            final(self)@ == refreshed(
                old(self)@,
                Some((access_token@, expires_in as int)),
                now as int,
            ),
    {
        proof {
            assert(expires_in * WALL_SECOND <= u64::MAX * WALL_SECOND) by (nonlinear_arith)
                requires
                    expires_in <= u64::MAX,
            ;
        }
        let expires_at: u128 = (now as u128) + (expires_in as u128) * WALL_SECOND;
        self.token = Some(TokenInfo { access_token, expires_at });
    }

    /// Takes what came of asking for a token: the token and how many seconds it
    /// lasts, which is kept, or an error, which leaves what was kept as it was.
    pub fn fetched(&mut self, result: Result<(String, u64), String>, now: u64) -> (r: Result<
        String,
        String,
    >)
        ensures
            match result {
                Ok((token, expires_in)) => {
                    &&& r matches Ok(t)
                    &&& t@ == token@
                    &&& final(self)@ == refreshed(
                        old(self)@,
                        Some((token@, expires_in as int)),
                        now as int,
                    )
                },
                Err(e) => {
                    &&& r matches Err(why)
                    &&& why@ == e@
                    &&& final(self)@ == refreshed(old(self)@, None, now as int)
                },
            },
    {
        match result {
            Ok((token, expires_in)) => {
                self.store(token.clone(), expires_in, now);
                Ok(token)
            },
            Err(e) => Err(e),
        }
    }
}

/// A token is used until five minutes before it runs out, and not after: one
/// that was fetched at a time and lasts for a while can be used just as long as
/// more than five minutes of that while are left.
pub proof fn tokens_are_used_in_time(token: Seq<char>, fetched: int, expires_in: int, now: int)
    ensures
        usable(Some((token, fetched + expires_in * WALL_SECOND)), now) == if now - fetched < (
        expires_in - TOKEN_MARGIN) * WALL_SECOND {
            Some(token)
        } else {
            None
        },
{
    assert((expires_in - TOKEN_MARGIN) * WALL_SECOND == expires_in * WALL_SECOND - TOKEN_MARGIN
        * WALL_SECOND) by (nonlinear_arith);
}

/// Someone who needs a token: when they look for one, and what they would be
/// given if they asked for one, and when.
pub struct Caller {
    pub looked: int,
    pub given: Option<(Seq<char>, int)>,
    pub given_at: int,
}

/// What serving a caller comes to.
pub struct Serving {
    pub cache: Option<(Seq<char>, int)>,
    pub token: Option<Seq<char>>,
    /// Whether a token was asked for.
    pub requested: bool,
}

/// Serves a caller, alone: with the token that is there, if it can be used, and
/// else with one that is asked for.
pub open spec fn served(cache: Option<(Seq<char>, int)>, c: Caller) -> Serving {
    match usable(cache, c.looked) {
        Some(token) => Serving { cache, token: Some(token), requested: false },
        None => Serving {
            cache: refreshed(cache, c.given, c.given_at),
            token: match c.given {
                Some(given) => Some(given.0),
                None => None,
            },
            requested: true,
        },
    }
}

/// What is kept once some callers have been served, one after the other.
pub open spec fn after_callers(cache: Option<(Seq<char>, int)>, callers: Seq<Caller>) -> Option<
    (Seq<char>, int),
>
    decreases callers.len(),
{
    if callers.len() == 0 {
        cache
    } else {
        served(after_callers(cache, callers.drop_last()), callers.last()).cache
    }
}

/// Callers that wait for a token share one request: once a token is there that
/// can be used, all who look for one while it can be used get it, and none of
/// them asks for another.
pub proof fn waiting_callers_share_a_request(
    token: Seq<char>,
    expires_at: int,
    callers: Seq<Caller>,
    next: Caller,
)
    requires
        forall|i: int|
            0 <= i < callers.len() ==> (#[trigger] callers[i]).looked + TOKEN_MARGIN * WALL_SECOND
                < expires_at,
        next.looked + TOKEN_MARGIN * WALL_SECOND < expires_at,
    ensures
        after_callers(Some((token, expires_at)), callers) == Some((token, expires_at)),
        served(after_callers(Some((token, expires_at)), callers), next) == (Serving {
            cache: Some((token, expires_at)),
            token: Some(token),
            requested: false,
        }),
    decreases callers.len(),
{
    if callers.len() > 0 {
        let front = callers.drop_last();
        assert forall|i: int| 0 <= i < front.len() implies (#[trigger] front[i]).looked
            + TOKEN_MARGIN * WALL_SECOND < expires_at by {
            assert(front[i] == callers[i]);
        }
        assert(callers[callers.len() - 1] == callers.last());
        waiting_callers_share_a_request(token, expires_at, front, callers.last());
    }
}

/// A token is asked for just when none that is there can be used. What is given
/// is kept; where nothing is given, the caller gets nothing, and what was kept
/// stays.
pub proof fn tokens_are_asked_for_when_needed(cache: Option<(Seq<char>, int)>, c: Caller)
    ensures
        served(cache, c).requested == (usable(cache, c.looked) is None),
        !served(cache, c).requested ==> served(cache, c).cache == cache && served(cache, c).token
            == usable(cache, c.looked),
        served(cache, c).requested && c.given is None ==> served(cache, c).cache == cache && served(
            cache,
            c,
        ).token is None,
        served(cache, c).requested ==> (c.given matches Some(given) ==> served(cache, c).token
            == Some(given.0) && served(cache, c).cache == Some(
            (given.0, c.given_at + given.1 * WALL_SECOND),
        )),
{
}

/// The margin before a token runs out is five minutes, in nanoseconds of the clock
/// on the wall; a token that was given is kept with when it runs out, and nothing
/// changes where none was given.
pub proof fn tokens_are_kept_until_five_minutes_before_their_end(
    cache: Option<(Seq<char>, int)>,
    token: Seq<char>,
    expires_in: int,
    given_at: int,
    now: int,
)
    ensures
        refreshed(cache, Some((token, expires_in)), given_at) == Some(
            (token, given_at + expires_in * 1_000_000_000),
        ),
        refreshed(cache, None, given_at) == cache,
        cache is None ==> usable(cache, now) is None,
        cache matches Some((kept, end)) ==> usable(cache, now) == if now + 300_000_000_000 < end {
            Some(kept)
        } else {
            None
        },
{
}

/// A token that was fetched is given back, and is used until five minutes before it
/// runs out. Where fetching failed, the reason is given back and nothing changes.
pub proof fn fetched_tokens_are_used(
    c: &mut TokenCache,
    result: Result<(String, u64), String>,
    now: u64,
    r: Result<String, String>,
    after: &TokenCache,
    later: u64,
    given: Option<String>,
)
    requires
        call_ensures(TokenCache::fetched, (c, result, now), r),
        *after == *final(c),
        call_ensures(TokenCache::get_token, (after, later), given),
    ensures
        result matches Ok((token, lasts)) ==> {
            &&& r is Ok && r->Ok_0@ == token@
            &&& later + 300_000_000_000 < now + lasts * 1_000_000_000 ==> given is Some
                && given->0@ == token@
            &&& later + 300_000_000_000 >= now + lasts * 1_000_000_000 ==> given is None
        },
        result matches Err(why) ==> r is Err && r->Err_0@ == why@ && final(c)@ == old(c)@,
{
}

/// Nothing is there at first, and a token that was kept is there as it was fetched.
pub proof fn kept_tokens_are_there(
    fresh: TokenCache,
    c: &mut TokenCache,
    token: String,
    lasts: u64,
    now: u64,
)
    ensures
        call_ensures(TokenCache::new, (), fresh) ==> fresh@ is None,
        call_ensures(TokenCache::store, (c, token, lasts, now), ()) ==> final(c)@ == Some(
            (token@, now + lasts * 1_000_000_000),
        ),
{
}

}
