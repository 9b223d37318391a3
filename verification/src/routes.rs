//! The service's operations over the link store: link creation, update,
//! statistics retrieval, the redirect path, and the health probe. Each
//! handler is the compute core of one HTTP route; the HTTP extraction, the
//! datastore connection and the deadlines around the real datastore calls
//! live outside this crate and hand these functions plain values.

use vstd::prelude::*;
use crate::errors::AppError;
use crate::idgen::generate_id;
use crate::store::{
    click_matches, click_pair, group_count, has_id, opt_view, stat_pair, target_of, update_effect,
    CountedLinkStatistic, Link, LinkStore, LinkTarget,
};
use crate::urls::{normalize_of, valid_url, validate_and_normalize};

verus! {

/// The fixed caching policy attached to every redirect response.
pub open spec fn cache_control_spec() -> Seq<char> {
    "public, max-age=300, s-maxage=300, stale-while-revalidate=300, stale-if-error=300"@
}

/// The `Cache-Control` value sent with every redirect.
pub fn default_cache_control_header_value() -> (r: String)
    ensures
        r@ == cache_control_spec(),
{
    "public, max-age=300, s-maxage=300, stale-while-revalidate=300, stale-if-error=300".to_owned()
}

/// What the service sends for a served redirect: HTTP 307 Temporary
/// Redirect, the stored target in `Location`, and the fixed cache policy.
#[derive(Debug)]
pub struct RedirectResponse {
    pub status: u16,
    pub location: String,
    pub cache_control: String,
}

/// The three outcomes of the best-effort click insert against the real
/// datastore: persisted, deadline exceeded, or a backend failure. All are
/// logged by the caller; none of them reaches the client.
#[derive(Clone, Copy, Debug, PartialEq, Eq, Structural)]
pub enum RecordOutcome {
    Persisted,
    TimedOut,
    Failed,
}

/// Creates a link: validates and normalizes the submitted URL, generates a
/// short identifier, and inserts the row. A malformed URL is rejected with
/// the validation failure before insertion is attempted, leaving the store
/// untouched; a generated id that happens to be taken surfaces as the
/// store's unique-key failure, also with no change.
pub fn create_link(store: &mut LinkStore, new_link: &LinkTarget) -> (r: Result<Link, AppError>)
    requires
        old(store).wf(),
    ensures
        final(store).wf(),
        final(store).clicks_view() == old(store).clicks_view(),
        match r {
            Ok(l) => {
                &&& valid_url(new_link.target_url@)
                &&& l.target_url@ == normalize_of(new_link.target_url@)
                &&& !has_id(old(store).links_view(), l.id@)
                &&& final(store).links_view().len() == old(store).links_view().len() + 1
                &&& forall|j: int|
                    0 <= j < old(store).links_view().len() ==> final(store).links_view()[j] == old(
                        store,
                    ).links_view()[j]
                &&& final(store).links_view().last().id@ == l.id@
                &&& final(store).links_view().last().target_url@ == l.target_url@
            },
            Err(e) => {
                &&& *final(store) == *old(store)
                &&& (e == AppError::Validation || e == AppError::Backend)
                &&& (e == AppError::Validation <==> !valid_url(new_link.target_url@))
            },
        },
{
    let url = match validate_and_normalize(new_link.target_url.as_str()) {
        Ok(u) => u,
        Err(e) => {
            return Err(e);
        },
    };
    let new_id = generate_id();
    store.insert_link(new_id, url)
}

/// Replaces the target of an existing link: validates and normalizes the
/// submitted URL, then updates the row in place and returns the updated
/// record. A malformed URL is rejected with the validation failure and no
/// side effect; a missing id surfaces as `NotFound`, also with no change.
pub fn update_link(store: &mut LinkStore, link_id: &String, update: &LinkTarget) -> (r: Result<
    Link,
    AppError,
>)
    requires
        old(store).wf(),
    ensures
        final(store).wf(),
        final(store).clicks_view() == old(store).clicks_view(),
        match r {
            Ok(l) => {
                &&& valid_url(update.target_url@)
                &&& has_id(old(store).links_view(), link_id@)
                &&& l.id@ == link_id@
                &&& l.target_url@ == normalize_of(update.target_url@)
                &&& update_effect(
                    old(store).links_view(),
                    final(store).links_view(),
                    link_id@,
                    normalize_of(update.target_url@),
                )
            },
            Err(e) => {
                &&& *final(store) == *old(store)
                &&& (e == AppError::Validation || e == AppError::NotFound)
                &&& (e == AppError::Validation <==> !valid_url(update.target_url@))
                &&& (e == AppError::NotFound <==> valid_url(update.target_url@) && !has_id(
                    old(store).links_view(),
                    link_id@,
                ))
            },
        },
{
    let url = match validate_and_normalize(update.target_url.as_str()) {
        Ok(u) => u,
        Err(e) => {
            return Err(e);
        },
    };
    store.update_target(link_id, url)
}

/// Retrieves the click statistics of a link: all recorded clicks of the id,
/// grouped by (referer, user agent), one exact count per group. In the
/// model the query itself cannot time out or fail; around the real
/// datastore its deadline and backend failures are the caller's to report,
/// unlike a click-recording failure they are not swallowed.
pub fn get_link_statistics(store: &LinkStore, link_id: &String) -> (r: Vec<CountedLinkStatistic>)
    requires
        store.clicks_view().len() < 0x8000_0000_0000_0000,
    ensures
        forall|i: int|
            0 <= i < r@.len() ==> (#[trigger] r@[i]).amount == Some(
                group_count(
                    store.clicks_view(),
                    link_id@,
                    stat_pair(r@[i]).0,
                    stat_pair(r@[i]).1,
                ) as i64,
            ),
        forall|i: int|
            0 <= i < r@.len() ==> group_count(
                store.clicks_view(),
                link_id@,
                stat_pair(#[trigger] r@[i]).0,
                stat_pair(r@[i]).1,
            ) >= 1,
        forall|i: int, j: int|
            0 <= i < j < r@.len() ==> stat_pair(#[trigger] r@[i]) != stat_pair(#[trigger] r@[j]),
        forall|k: int|
            0 <= k < store.clicks_view().len() && (#[trigger] store.clicks_view()[k]).link_id@
                == link_id@ ==> exists|i: int|
                0 <= i < r@.len() && stat_pair(#[trigger] r@[i]) == click_pair(
                    store.clicks_view()[k],
                ),
{
    store.aggregate(link_id)
}

/// Builds the response for a resolved link. The recorder's outcome is
/// taken only so the caller can hand it over for diagnostics: every field
/// of the response is pinned by the link alone, whatever the outcome —
/// click tracking is sacrificial, and its failure never turns a successful
/// resolution into a client-visible error.
pub fn finish_redirect(link: &Link, outcome: RecordOutcome) -> (r: RedirectResponse)
    ensures
        r.status == 307,
        r.location@ == link.target_url@,
        r.cache_control@ == cache_control_spec(),
{
    let _ = outcome;
    RedirectResponse {
        status: 307,
        location: link.target_url.clone(),
        cache_control: default_cache_control_header_value(),
    }
}

/// Step one of the redirect path, as a decision on the lookup's outcome: a
/// row that is missing becomes `NotFound`; a lookup failure is passed
/// through untouched; a resolved link proceeds.
pub fn resolve_outcome(fetched: Result<Option<Link>, AppError>) -> (r: Result<Link, AppError>)
    ensures
        match fetched {
            Ok(Some(l)) => r is Ok && r->Ok_0 == l,
            Ok(None) => r == Err::<Link, AppError>(AppError::NotFound),
            Err(e) => r == Err::<Link, AppError>(e),
        },
{
    match fetched {
        Ok(Some(l)) => Ok(l),
        Ok(None) => Err(AppError::NotFound),
        Err(e) => Err(e),
    }
}

/// Serves a redirect from the store: resolve the link (`NotFound` when the
/// id is missing, with nothing recorded), record the click with the
/// request's referer and user agent, and respond 307 with the stored
/// target and the fixed cache policy. The response fields are pinned by
/// the resolved link alone; the recording changes only the click table.
pub fn redirect(
    store: &mut LinkStore,
    requested_link: &String,
    referer: Option<String>,
    user_agent: Option<String>,
) -> (r: Result<RedirectResponse, AppError>)
    requires
        old(store).wf(),
    ensures
        final(store).wf(),
        final(store).links_view() == old(store).links_view(),
        match r {
            Ok(resp) => {
                &&& has_id(old(store).links_view(), requested_link@)
                &&& resp.status == 307
                &&& resp.location@ == target_of(old(store).links_view(), requested_link@)
                &&& resp.cache_control@ == cache_control_spec()
                &&& final(store).clicks_view().len() == old(store).clicks_view().len() + 1
                &&& forall|j: int|
                    0 <= j < old(store).clicks_view().len() ==> final(store).clicks_view()[j]
                        == old(store).clicks_view()[j]
                &&& click_matches(
                    final(store).clicks_view().last(),
                    requested_link@,
                    opt_view(referer),
                    opt_view(user_agent),
                )
            },
            Err(e) => {
                &&& e == AppError::NotFound
                &&& !has_id(old(store).links_view(), requested_link@)
                &&& *final(store) == *old(store)
            },
        },
{
    let link = match store.fetch(requested_link) {
        Ok(l) => l,
        Err(e) => {
            return Err(e);
        },
    };
    store.record(requested_link, referer, user_agent);
    Ok(finish_redirect(&link, RecordOutcome::Persisted))
}

/// The health probe: always available, no dependencies.
pub fn health() -> (r: (u16, String))
    ensures
        r.0 == 200,
        r.1@ == "Serice is healthy!"@,
{
    (200, "Serice is healthy!".to_owned())
}

} // verus!
