//! Properties of the credential store and of the token checks that relate
//! several operations.

use vstd::prelude::*;
use crate::text::{decimal, lemma_parse_u64_decimal};
use crate::auth::{
    map_get, with_tokens, expiry_of, needs_refresh, expiry_from, sat_sub, REFRESH_MARGIN_SECS,
    DEFAULT_TOKEN_LIFETIME_SECS,
};

verus! {

/// Reading a key right after storing a value under it gives that value;
/// every other key reads as before.
pub proof fn law_get_after_store(
    m: Map<Seq<char>, Seq<char>>,
    key: Seq<char>,
    value: Seq<char>,
    other: Seq<char>,
)
    ensures
        map_get(m.insert(key, value), key) == Some(value),
        other != key ==> map_get(m.insert(key, value), other) == map_get(m, other),
{
}

/// After a token response is recorded, the store reads back the access
/// token, the expiry it was recorded with, and the refresh token (the
/// earlier one where the response brought none).
pub proof fn law_recorded_tokens_read_back(
    m: Map<Seq<char>, Seq<char>>,
    access: Seq<char>,
    refresh: Option<Seq<char>>,
    expiry: u64,
)
    ensures
        map_get(with_tokens(m, access, refresh, expiry), "access_token"@) == Some(access),
        map_get(with_tokens(m, access, refresh, expiry), "access_token_expiry"@) matches Some(t)
            && expiry_of(t) == expiry,
        map_get(with_tokens(m, access, refresh, expiry), "refresh_token"@) == match refresh {
            Some(r) => Some(r),
            None => map_get(m, "refresh_token"@),
        },
{
    lemma_parse_u64_decimal(expiry);
    reveal_strlit("access_token");
    reveal_strlit("access_token_expiry");
    reveal_strlit("refresh_token");
    assert("access_token"@.len() != "access_token_expiry"@.len());
    assert("refresh_token"@[0] != "access_token"@[0]);
    assert("refresh_token"@[0] != "access_token_expiry"@[0]);
}

/// A token recorded at `now` whose lifetime exceeds the refresh margin
/// needs no refresh at `now`; one whose lifetime is within the margin
/// does.
pub proof fn law_fresh_token_is_valid(now: u64, expires_in: Option<u64>)
    requires
        expiry_from(now, expires_in) <= u64::MAX,
        now + REFRESH_MARGIN_SECS <= u64::MAX,
    ensures
        needs_refresh(expiry_from(now, expires_in) as u64, now) <==> match expires_in {
            Some(s) => s <= REFRESH_MARGIN_SECS,
            None => DEFAULT_TOKEN_LIFETIME_SECS <= REFRESH_MARGIN_SECS,
        },
{
}

/// The scheduled refresh runs no later than the refresh margin before the
/// expiry, and never before `now` plus the wait it was given.
pub proof fn law_refresh_scheduled_before_expiry(expiry: u64, now: u64)
    ensures
        sat_sub(expiry, REFRESH_MARGIN_SECS) <= expiry,
        expiry >= REFRESH_MARGIN_SECS ==> sat_sub(expiry, REFRESH_MARGIN_SECS) + REFRESH_MARGIN_SECS
            == expiry,
        sat_sub(expiry, REFRESH_MARGIN_SECS) > now ==> now + sat_sub(
            sat_sub(expiry, REFRESH_MARGIN_SECS),
            now,
        ) == sat_sub(expiry, REFRESH_MARGIN_SECS),
{
}

/// A scheduled refresh that ran replaces the access token of the store it
/// was scheduled for: reading the store afterwards gives the new token, and
/// the stored expiry is the one the refresh recorded.
pub proof fn law_scheduled_refresh_replaces_token(
    m: Map<Seq<char>, Seq<char>>,
    old_token: Seq<char>,
    new_token: Seq<char>,
    expiry: u64,
)
    requires
        map_get(m, "access_token"@) == Some(old_token),
    ensures
        map_get(with_tokens(m, new_token, None, expiry), "access_token"@) == Some(new_token),
        old_token != new_token ==> map_get(with_tokens(m, new_token, None, expiry), "access_token"@)
            != Some(old_token),
        map_get(with_tokens(m, new_token, None, expiry), "access_token_expiry"@) matches Some(t)
            && expiry_of(t) == expiry,
        map_get(with_tokens(m, new_token, None, expiry), "refresh_token"@) == map_get(
            m,
            "refresh_token"@,
        ),
{
    law_recorded_tokens_read_back(m, new_token, None, expiry);
}

} // verus!
