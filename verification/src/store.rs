//! The link store and click-statistics model: the two tables of the service
//! as plain rows, with the primary-key invariant on link ids. The persisted
//! relational datastore is an external collaborator; this model states what
//! its contents mean to the service's logic, and every operation on it is
//! verified against that meaning.

use vstd::prelude::*;
use crate::errors::AppError;

verus! {

/// A persisted mapping from a short identifier to a target URL. The id is
/// unique and immutable; the target is replaced in place by updates.
#[derive(Debug)]
pub struct Link {
    pub id: String,
    pub target_url: String,
}

/// The request body of create and update: the destination URL as submitted.
#[derive(Debug)]
pub struct LinkTarget {
    pub target_url: String,
}

/// One recorded instance of a redirect being served for a given link. The
/// link id is a weak reference: ownership is not enforced.
#[derive(Debug)]
pub struct ClickEvent {
    pub link_id: String,
    pub referer: Option<String>,
    pub user_agent: Option<String>,
}

/// One row of a statistics result: how many clicks of a link were observed
/// for one distinct (referer, user agent) pair.
#[derive(Debug)]
pub struct CountedLinkStatistic {
    pub amount: Option<i64>,
    pub referer: Option<String>,
    pub user_agent: Option<String>,
}

/// The character view of an optional header value.
pub open spec fn opt_view(o: Option<String>) -> Option<Seq<char>> {
    match o {
        Some(s) => Some(s@),
        None => None,
    }
}

/// Whether some stored link carries the given id.
pub open spec fn has_id(v: Seq<Link>, id: Seq<char>) -> bool {
    exists|i: int| 0 <= i < v.len() && v[i].id@ == id
}

/// The stored links carry pairwise distinct ids (the table's primary key).
pub open spec fn unique_ids(v: Seq<Link>) -> bool {
    forall|i: int, j: int| 0 <= i < j < v.len() ==> v[i].id@ != v[j].id@
}

/// The target URL stored under the given id; meaningful when `has_id` holds.
pub open spec fn target_of(v: Seq<Link>, id: Seq<char>) -> Seq<char> {
    v[choose|i: int| 0 <= i < v.len() && v[i].id@ == id].target_url@
}

/// Under unique ids, any index whose row matches the id yields the stored
/// target.
pub proof fn lemma_target_at(v: Seq<Link>, id: Seq<char>, i: int)
    requires
        unique_ids(v),
        0 <= i < v.len(),
        v[i].id@ == id,
    ensures
        target_of(v, id) == v[i].target_url@,
{
    let c = choose|j: int| 0 <= j < v.len() && v[j].id@ == id;
    assert(0 <= c < v.len() && v[c].id@ == id);
    if c < i {
        assert(v[c].id@ != v[i].id@);
        assert(false);
    }
    if i < c {
        assert(v[i].id@ != v[c].id@);
        assert(false);
    }
}

/// Whether a click event falls in the given link's (referer, user agent)
/// group.
pub open spec fn click_matches(
    c: ClickEvent,
    lid: Seq<char>,
    r: Option<Seq<char>>,
    u: Option<Seq<char>>,
) -> bool {
    c.link_id@ == lid && opt_view(c.referer) == r && opt_view(c.user_agent) == u
}

/// How many recorded clicks of the link fall in the given (referer,
/// user agent) group.
pub open spec fn group_count(
    s: Seq<ClickEvent>,
    lid: Seq<char>,
    r: Option<Seq<char>>,
    u: Option<Seq<char>>,
) -> nat
    decreases s.len(),
{
    if s.len() == 0 {
        0
    } else {
        group_count(s.drop_last(), lid, r, u) + if click_matches(s.last(), lid, r, u) {
            1nat
        } else {
            0nat
        }
    }
}

/// The (referer, user agent) views of a pair of optional header values.
pub open spec fn pair_view(p: (Option<String>, Option<String>)) -> (
    Option<Seq<char>>,
    Option<Seq<char>>,
) {
    (opt_view(p.0), opt_view(p.1))
}

/// The (referer, user agent) views of a recorded click.
pub open spec fn click_pair(c: ClickEvent) -> (Option<Seq<char>>, Option<Seq<char>>) {
    (opt_view(c.referer), opt_view(c.user_agent))
}

/// The (referer, user agent) views of a statistics row.
pub open spec fn stat_pair(row: CountedLinkStatistic) -> (Option<Seq<char>>, Option<Seq<char>>) {
    (opt_view(row.referer), opt_view(row.user_agent))
}

/// Whether the pair list holds an entry with the given views.
spec fn pair_in(
    ps: Seq<(Option<String>, Option<String>)>,
    pv: (Option<Seq<char>>, Option<Seq<char>>),
) -> bool {
    exists|i: int| 0 <= i < ps.len() && pair_view(#[trigger] ps[i]) == pv
}

/// Whether some click among the first `upto` belongs to the link and
/// carries the given views.
spec fn pair_occurs(
    s: Seq<ClickEvent>,
    upto: int,
    lid: Seq<char>,
    pv: (Option<Seq<char>>, Option<Seq<char>>),
) -> bool {
    exists|k: int| 0 <= k < upto && (#[trigger] s[k]).link_id@ == lid && click_pair(s[k]) == pv
}

/// An in-memory link store: the links table and the click-events table.
pub struct LinkStore {
    links: Vec<Link>,
    clicks: Vec<ClickEvent>,
}

impl LinkStore {
    /// The links table, as the sequence of its rows.
    pub closed spec fn links_view(&self) -> Seq<Link> {
        self.links@
    }

    /// The click-events table, as the sequence of its rows.
    pub closed spec fn clicks_view(&self) -> Seq<ClickEvent> {
        self.clicks@
    }

    /// Well-formedness: link ids are pairwise distinct.
    pub open spec fn wf(&self) -> bool {
        unique_ids(self.links_view())
    }

    /// An empty store.
    pub fn new() -> (r: LinkStore)
        ensures
            r.wf(),
            r.links_view().len() == 0,
            r.clicks_view().len() == 0,
    {
        LinkStore { links: Vec::new(), clicks: Vec::new() }
    }

    /// Whether a row with the given id exists.
    pub fn contains_id(&self, id: &String) -> (r: bool)
        ensures
            r == has_id(self.links_view(), id@),
    {
        let n = self.links.len();
        let mut i: usize = 0;
        while i < n
            invariant
                n == self.links@.len(),
                0 <= i <= n,
                forall|j: int| 0 <= j < i ==> self.links@[j].id@ != id@,
            decreases n - i,
        {
            if self.links[i].id == *id {
                return true;
            }
            i += 1;
        }
        false
    }

    /// Point lookup by identifier; `NotFound` exactly when no row matches.
    /// The model lookup itself cannot time out or report a backend failure.
    pub fn fetch(&self, id: &String) -> (r: Result<Link, AppError>)
        requires
            self.wf(),
        ensures
            match r {
                Ok(l) => has_id(self.links_view(), id@) && l.id@ == id@ && l.target_url@
                    == target_of(self.links_view(), id@),
                Err(e) => e == AppError::NotFound && !has_id(self.links_view(), id@),
            },
    {
        let n = self.links.len();
        let mut i: usize = 0;
        while i < n
            invariant
                n == self.links@.len(),
                0 <= i <= n,
                forall|j: int| 0 <= j < i ==> self.links@[j].id@ != id@,
                self.wf(),
            decreases n - i,
        {
            if self.links[i].id == *id {
                proof {
                    lemma_target_at(self.links@, id@, i as int);
                }
                return Ok(Link {
                    id: self.links[i].id.clone(),
                    target_url: self.links[i].target_url.clone(),
                });
            }
            i += 1;
        }
        Err(AppError::NotFound)
    }

    /// Inserts a fresh row. An id that is already taken surfaces as the
    /// unique-key failure of the datastore, with the table unchanged; the
    /// returned record is read back from the inserted row itself.
    pub fn insert_link(&mut self, id: String, target_url: String) -> (r: Result<Link, AppError>)
        requires
            old(self).wf(),
        ensures
            final(self).wf(),
            final(self).clicks_view() == old(self).clicks_view(),
            match r {
                Ok(l) => {
                    &&& !has_id(old(self).links_view(), id@)
                    &&& l.id@ == id@
                    &&& l.target_url@ == target_url@
                    &&& final(self).links_view().len() == old(self).links_view().len() + 1
                    &&& forall|j: int|
                        0 <= j < old(self).links_view().len() ==> final(self).links_view()[j]
                            == old(self).links_view()[j]
                    &&& final(self).links_view().last().id@ == id@
                    &&& final(self).links_view().last().target_url@ == target_url@
                },
                Err(e) => {
                    &&& e == AppError::Backend
                    &&& has_id(old(self).links_view(), id@)
                    &&& *final(self) == *old(self)
                },
            },
    {
        if self.contains_id(&id) {
            return Err(AppError::Backend);
        }
        let row = Link { id: id.clone(), target_url: target_url.clone() };
        proof {
            let v1 = self.links@;
            assert forall|i: int, j: int| 0 <= i < j < v1.push(row).len() implies v1.push(row)[i].id@
                != v1.push(row)[j].id@ by {
                if j < v1.len() {
                    assert(v1[i].id@ != v1[j].id@);
                } else {
                    assert(v1.push(row)[j] == row);
                    assert(!(0 <= i < v1.len() && v1[i].id@ == id@));
                }
            }
        }
        self.links.push(row);
        Ok(Link { id, target_url })
    }

    /// The effect of an update on the links table is stated by
    /// `update_effect`; a missing id surfaces as `NotFound` with no change.
    /// The id of the matching row is kept; only its target is replaced.
    pub fn update_target(&mut self, id: &String, target_url: String) -> (r: Result<
        Link,
        AppError,
    >)
        requires
            old(self).wf(),
        ensures
            final(self).wf(),
            final(self).clicks_view() == old(self).clicks_view(),
            match r {
                Ok(l) => {
                    &&& has_id(old(self).links_view(), id@)
                    &&& l.id@ == id@
                    &&& l.target_url@ == target_url@
                    &&& update_effect(
                        old(self).links_view(),
                        final(self).links_view(),
                        id@,
                        target_url@,
                    )
                },
                Err(e) => {
                    &&& e == AppError::NotFound
                    &&& !has_id(old(self).links_view(), id@)
                    &&& *final(self) == *old(self)
                },
            },
    {
        let n = self.links.len();
        let mut i: usize = 0;
        while i < n
            invariant
                n == self.links@.len(),
                0 <= i <= n,
                forall|j: int| 0 <= j < i ==> self.links@[j].id@ != id@,
                self.wf(),
                self == old(self),
            decreases n - i,
        {
            if self.links[i].id == *id {
                let row = Link { id: self.links[i].id.clone(), target_url: target_url.clone() };
                let result = Link { id: self.links[i].id.clone(), target_url: target_url.clone() };
                self.links[i] = row;
                proof {
                    lemma_update_preserves(old(self).links@, self.links@, id@, target_url@, i as int);
                }
                return Ok(result);
            }
            i += 1;
        }
        Err(AppError::NotFound)
    }

    /// Appends one click event; the links table is untouched. In the model
    /// the insert itself always succeeds; what a failed or timed-out insert
    /// of the real datastore means is the caller's decision, and by the
    /// best-effort contract it never reaches the client.
    pub fn record(&mut self, link_id: &String, referer: Option<String>, user_agent: Option<String>)
        ensures
            final(self).links_view() == old(self).links_view(),
            final(self).clicks_view().len() == old(self).clicks_view().len() + 1,
            forall|j: int|
                0 <= j < old(self).clicks_view().len() ==> final(self).clicks_view()[j] == old(
                    self,
                ).clicks_view()[j],
            click_matches(
                final(self).clicks_view().last(),
                link_id@,
                opt_view(referer),
                opt_view(user_agent),
            ),
    {
        let event = ClickEvent { link_id: link_id.clone(), referer, user_agent };
        self.clicks.push(event);
    }

    /// Counts the recorded clicks of `link_id` that fall in the given
    /// (referer, user agent) group.
    fn count_group(
        &self,
        link_id: &String,
        referer: &Option<String>,
        user_agent: &Option<String>,
    ) -> (r: i64)
        requires
            self.clicks_view().len() < 0x8000_0000_0000_0000,
        ensures
            r == group_count(
                self.clicks_view(),
                link_id@,
                opt_view(*referer),
                opt_view(*user_agent),
            ) as i64,
            r >= 0,
    {
        let ghost rv = opt_view(*referer);
        let ghost uv = opt_view(*user_agent);
        let n = self.clicks.len();
        let mut count: i64 = 0;
        let mut k: usize = 0;
        while k < n
            invariant
                n == self.clicks@.len(),
                0 <= k <= n,
                n < 0x8000_0000_0000_0000,
                rv == opt_view(*referer),
                uv == opt_view(*user_agent),
                count == group_count(self.clicks@.take(k as int), link_id@, rv, uv) as i64,
                count <= k,
                count >= 0,
            decreases n - k,
        {
            let c = &self.clicks[k];
            let m1 = c.link_id == *link_id;
            let m2 = opt_eq(&c.referer, referer);
            let m3 = opt_eq(&c.user_agent, user_agent);
            let hit = m1 && m2 && m3;
            proof {
                lemma_group_count_le_len(self.clicks@.take(k as int), link_id@, rv, uv);
                assert(self.clicks@.take(k as int + 1).drop_last() =~= self.clicks@.take(k as int));
                assert(self.clicks@.take(k as int + 1).last() == self.clicks@[k as int]);
                assert(hit == click_matches(self.clicks@[k as int], link_id@, rv, uv));
                assert(group_count(self.clicks@.take(k as int + 1), link_id@, rv, uv)
                    == group_count(self.clicks@.take(k as int), link_id@, rv, uv) + (
                if click_matches(self.clicks@[k as int], link_id@, rv, uv) {
                    1nat
                } else {
                    0nat
                }));
            }
            if hit {
                count = count + 1;
            }
            k += 1;
        }
        proof {
            assert(self.clicks@.take(n as int) =~= self.clicks@);
        }
        count
    }

    /// Groups the recorded clicks of a link by their (referer, user agent)
    /// pair and counts each group: one row per distinct pair observed for
    /// the link, each carrying the exact count, and no other rows. The
    /// order of the rows is unspecified.
    pub fn aggregate(&self, link_id: &String) -> (r: Vec<CountedLinkStatistic>)
        requires
            self.clicks_view().len() < 0x8000_0000_0000_0000,
        ensures
            forall|i: int|
                0 <= i < r@.len() ==> (#[trigger] r@[i]).amount == Some(
                    group_count(
                        self.clicks_view(),
                        link_id@,
                        stat_pair(r@[i]).0,
                        stat_pair(r@[i]).1,
                    ) as i64,
                ),
            forall|i: int|
                0 <= i < r@.len() ==> group_count(
                    self.clicks_view(),
                    link_id@,
                    stat_pair(#[trigger] r@[i]).0,
                    stat_pair(r@[i]).1,
                ) >= 1,
            forall|i: int, j: int|
                0 <= i < j < r@.len() ==> stat_pair(#[trigger] r@[i]) != stat_pair(
                    #[trigger] r@[j],
                ),
            forall|k: int|
                0 <= k < self.clicks_view().len() && (#[trigger] self.clicks_view()[k]).link_id@
                    == link_id@ ==> exists|i: int|
                    0 <= i < r@.len() && stat_pair(#[trigger] r@[i]) == click_pair(
                        self.clicks_view()[k],
                    ),
    {
        let n = self.clicks.len();
        let mut pairs: Vec<(Option<String>, Option<String>)> = Vec::new();
        let mut k: usize = 0;
        while k < n
            invariant
                n == self.clicks@.len(),
                0 <= k <= n,
                forall|i: int, j: int|
                    0 <= i < j < pairs@.len() ==> pair_view(#[trigger] pairs@[i]) != pair_view(
                        #[trigger] pairs@[j],
                    ),
                forall|i: int|
                    0 <= i < pairs@.len() ==> pair_occurs(
                        self.clicks@,
                        k as int,
                        link_id@,
                        pair_view(#[trigger] pairs@[i]),
                    ),
                forall|k2: int|
                    0 <= k2 < k && (#[trigger] self.clicks@[k2]).link_id@ == link_id@ ==> pair_in(
                        pairs@,
                        click_pair(self.clicks@[k2]),
                    ),
            decreases n - k,
        {
            let ghost pre = pairs@;
            let c = &self.clicks[k];
            if c.link_id == *link_id {
                if !pair_present(&pairs, &c.referer, &c.user_agent) {
                    let np = (clone_opt(&c.referer), clone_opt(&c.user_agent));
                    proof {
                        assert(pair_view(np) == click_pair(self.clicks@[k as int]));
                    }
                    pairs.push(np);
                    proof {
                        assert(pairs@[pre.len() as int] == np);
                        assert(pair_in(pairs@, click_pair(self.clicks@[k as int])));
                    }
                } else {
                    proof {
                        assert(pair_in(pairs@, click_pair(self.clicks@[k as int])));
                    }
                }
            }
            proof {
                assert(forall|i: int| 0 <= i < pre.len() ==> pairs@[i] == pre[i]);
                assert forall|i: int, j: int| 0 <= i < j < pairs@.len() implies pair_view(
                    #[trigger] pairs@[i],
                ) != pair_view(#[trigger] pairs@[j]) by {
                    assert(pairs@[i] == pre[i]);
                    if j < pre.len() {
                        assert(pairs@[j] == pre[j]);
                    } else {
                        assert(!pair_in(pre, pair_view(pairs@[j])));
                    }
                }
                assert forall|i: int| 0 <= i < pairs@.len() implies pair_occurs(
                    self.clicks@,
                    k as int + 1,
                    link_id@,
                    pair_view(#[trigger] pairs@[i]),
                ) by {
                    if i < pre.len() {
                        assert(pair_occurs(self.clicks@, k as int, link_id@, pair_view(pre[i])));
                        let k2 = choose|k2: int|
                            0 <= k2 < k && (#[trigger] self.clicks@[k2]).link_id@ == link_id@
                                && click_pair(self.clicks@[k2]) == pair_view(pre[i]);
                        assert(pairs@[i] == pre[i]);
                        assert(0 <= k2 < k + 1 && self.clicks@[k2].link_id@ == link_id@
                            && click_pair(self.clicks@[k2]) == pair_view(pairs@[i]));
                    } else {
                        assert(self.clicks@[k as int].link_id@ == link_id@ && click_pair(
                            self.clicks@[k as int],
                        ) == pair_view(pairs@[i]));
                    }
                }
                assert forall|k2: int|
                    0 <= k2 < k + 1 && (#[trigger] self.clicks@[k2]).link_id@ == link_id@ implies
                    pair_in(pairs@, click_pair(self.clicks@[k2])) by {
                    if k2 < k {
                        let i = choose|i: int|
                            0 <= i < pre.len() && pair_view(#[trigger] pre[i]) == click_pair(
                                self.clicks@[k2],
                            );
                        assert(pairs@[i] == pre[i]);
                        assert(pair_view(pairs@[i]) == click_pair(self.clicks@[k2]));
                    }
                }
            }
            k += 1;
        }
        let m = pairs.len();
        let mut rows: Vec<CountedLinkStatistic> = Vec::new();
        let mut t: usize = 0;
        while t < m
            invariant
                m == pairs@.len(),
                0 <= t <= m,
                rows@.len() == t,
                self.clicks_view().len() < 0x8000_0000_0000_0000,
                forall|i: int|
                    0 <= i < t ==> stat_pair(#[trigger] rows@[i]) == pair_view(pairs@[i]),
                forall|i: int|
                    0 <= i < t ==> (#[trigger] rows@[i]).amount == Some(
                        group_count(
                            self.clicks_view(),
                            link_id@,
                            pair_view(pairs@[i]).0,
                            pair_view(pairs@[i]).1,
                        ) as i64,
                    ),
            decreases m - t,
        {
            let pr = &pairs[t];
            let cnt = self.count_group(link_id, &pr.0, &pr.1);
            let row = CountedLinkStatistic {
                amount: Some(cnt),
                referer: clone_opt(&pr.0),
                user_agent: clone_opt(&pr.1),
            };
            rows.push(row);
            t += 1;
        }
        proof {
            let cv = self.clicks@;
            assert forall|i: int|
                0 <= i < rows@.len() implies (#[trigger] rows@[i]).amount == Some(
                group_count(cv, link_id@, stat_pair(rows@[i]).0, stat_pair(rows@[i]).1) as i64,
            ) && group_count(cv, link_id@, stat_pair(rows@[i]).0, stat_pair(rows@[i]).1) >= 1 by {
                assert(stat_pair(rows@[i]) == pair_view(pairs@[i]));
                assert(pair_occurs(cv, n as int, link_id@, pair_view(pairs@[i])));
                let k2 = choose|k2: int|
                    0 <= k2 < n && (#[trigger] cv[k2]).link_id@ == link_id@ && click_pair(cv[k2])
                        == pair_view(pairs@[i]);
                assert(click_matches(
                    cv[k2],
                    link_id@,
                    pair_view(pairs@[i]).0,
                    pair_view(pairs@[i]).1,
                ));
                lemma_group_count_pos(
                    cv,
                    link_id@,
                    pair_view(pairs@[i]).0,
                    pair_view(pairs@[i]).1,
                    k2,
                );
            }
            assert forall|i: int, j: int| 0 <= i < j < rows@.len() implies stat_pair(
                #[trigger] rows@[i],
            ) != stat_pair(#[trigger] rows@[j]) by {
                assert(stat_pair(rows@[i]) == pair_view(pairs@[i]));
                assert(stat_pair(rows@[j]) == pair_view(pairs@[j]));
            }
            assert forall|k2: int|
                0 <= k2 < cv.len() && (#[trigger] cv[k2]).link_id@ == link_id@ implies exists|
                i: int,
            |
                0 <= i < rows@.len() && stat_pair(#[trigger] rows@[i]) == click_pair(cv[k2]) by {
                assert(pair_in(pairs@, click_pair(cv[k2])));
                let i = choose|i: int|
                    0 <= i < pairs@.len() && pair_view(#[trigger] pairs@[i]) == click_pair(cv[k2]);
                assert(stat_pair(rows@[i]) == pair_view(pairs@[i]));
            }
        }
        rows
    }
}

/// Clones an optional header value.
fn clone_opt(o: &Option<String>) -> (r: Option<String>)
    ensures
        opt_view(r) == opt_view(*o),
{
    match o {
        Some(s) => Some(s.clone()),
        None => None,
    }
}

/// Whether two optional header values hold the same text.
fn opt_eq(a: &Option<String>, b: &Option<String>) -> (r: bool)
    ensures
        r == (opt_view(*a) == opt_view(*b)),
{
    match (a, b) {
        (Some(x), Some(y)) => *x == *y,
        (None, None) => true,
        _ => false,
    }
}

/// Whether the pair list already holds the given (referer, user agent) pair.
fn pair_present(
    pairs: &Vec<(Option<String>, Option<String>)>,
    referer: &Option<String>,
    user_agent: &Option<String>,
) -> (r: bool)
    ensures
        r == pair_in(pairs@, (opt_view(*referer), opt_view(*user_agent))),
{
    let n = pairs.len();
    let mut i: usize = 0;
    while i < n
        invariant
            n == pairs@.len(),
            0 <= i <= n,
            forall|j: int|
                0 <= j < i ==> pair_view(#[trigger] pairs@[j]) != (
                    opt_view(*referer),
                    opt_view(*user_agent),
                ),
        decreases n - i,
    {
        let pr = &pairs[i];
        if opt_eq(&pr.0, referer) && opt_eq(&pr.1, user_agent) {
            proof {
                assert(pair_view(pairs@[i as int]) == (opt_view(*referer), opt_view(*user_agent)));
            }
            return true;
        }
        i += 1;
    }
    false
}

/// A group's count never exceeds the number of recorded clicks.
proof fn lemma_group_count_le_len(
    s: Seq<ClickEvent>,
    lid: Seq<char>,
    r: Option<Seq<char>>,
    u: Option<Seq<char>>,
)
    ensures
        group_count(s, lid, r, u) <= s.len(),
    decreases s.len(),
{
    if s.len() > 0 {
        lemma_group_count_le_len(s.drop_last(), lid, r, u);
    }
}

/// A group with at least one matching click has a positive count.
proof fn lemma_group_count_pos(
    s: Seq<ClickEvent>,
    lid: Seq<char>,
    r: Option<Seq<char>>,
    u: Option<Seq<char>>,
    k: int,
)
    requires
        0 <= k < s.len(),
        click_matches(s[k], lid, r, u),
    ensures
        group_count(s, lid, r, u) >= 1,
    decreases s.len(),
{
    if k == s.len() - 1 {
    } else {
        assert(s.drop_last()[k] == s[k]);
        lemma_group_count_pos(s.drop_last(), lid, r, u, k);
    }
}

/// The effect of replacing the target stored under `id` with `t`: the row
/// set keeps its ids, the row under `id` now carries `t`, and every other
/// row is untouched.
pub open spec fn update_effect(v1: Seq<Link>, v2: Seq<Link>, id: Seq<char>, t: Seq<char>) -> bool {
    &&& v2.len() == v1.len()
    &&& has_id(v2, id)
    &&& target_of(v2, id) == t
    &&& forall|k: Seq<char>| has_id(v1, k) <==> has_id(v2, k)
    &&& forall|k: Seq<char>| k != id && has_id(v1, k) ==> target_of(v2, k) == target_of(v1, k)
}

/// Replacing the target at the unique index that matches `id` yields the
/// update effect and preserves uniqueness of ids.
proof fn lemma_update_preserves(v1: Seq<Link>, v2: Seq<Link>, id: Seq<char>, t: Seq<char>, i: int)
    requires
        unique_ids(v1),
        0 <= i < v1.len(),
        v1[i].id@ == id,
        v2.len() == v1.len(),
        v2[i].id@ == id,
        v2[i].target_url@ == t,
        forall|j: int| 0 <= j < v1.len() && j != i ==> v2[j] == v1[j],
    ensures
        unique_ids(v2),
        update_effect(v1, v2, id, t),
{
    assert forall|p: int, q: int| 0 <= p < q < v2.len() implies v2[p].id@ != v2[q].id@ by {
        assert(v2[p].id@ == v1[p].id@);
        assert(v2[q].id@ == v1[q].id@);
        assert(v1[p].id@ != v1[q].id@);
    }
    assert(has_id(v2, id));
    lemma_target_at(v2, id, i);
    assert forall|k: Seq<char>| has_id(v1, k) implies has_id(v2, k) by {
        let w = choose|j: int| 0 <= j < v1.len() && v1[j].id@ == k;
        assert(v2[w].id@ == v1[w].id@);
    }
    assert forall|k: Seq<char>| has_id(v2, k) implies has_id(v1, k) by {
        let w = choose|j: int| 0 <= j < v2.len() && v2[j].id@ == k;
        assert(v1[w].id@ == v2[w].id@);
    }
    assert forall|k: Seq<char>| k != id && has_id(v1, k) implies target_of(v2, k) == target_of(
        v1,
        k,
    ) by {
        let w = choose|j: int| 0 <= j < v1.len() && v1[j].id@ == k;
        assert(w != i);
        assert(v2[w] == v1[w]);
        lemma_target_at(v1, k, w);
        lemma_target_at(v2, k, w);
    }
}

/// Law: creating a link and then fetching its id yields the stored target.
/// Appending a row with a fresh id `k` and target `t` to a well-formed
/// table keeps it well-formed, makes `k` present, and stores `t` under it;
/// with `create`'s contract this gives `fetch(create(u).id).target_url ==
/// normalize_of(u)` for every valid URL `u`, and with `record`'s it gives
/// that a served redirect leaves the resolved target unchanged.
pub proof fn lemma_create_then_fetch(v1: Seq<Link>, v2: Seq<Link>, k: Seq<char>, t: Seq<char>)
    requires
        unique_ids(v1),
        !has_id(v1, k),
        v2.len() == v1.len() + 1,
        forall|j: int| 0 <= j < v1.len() ==> v2[j] == v1[j],
        v2.last().id@ == k,
        v2.last().target_url@ == t,
    ensures
        unique_ids(v2),
        has_id(v2, k),
        target_of(v2, k) == t,
{
    assert forall|p: int, q: int| 0 <= p < q < v2.len() implies v2[p].id@ != v2[q].id@ by {
        assert(v2[p] == v1[p]);
        if q < v1.len() {
            assert(v2[q] == v1[q]);
        } else {
            assert(!(0 <= p < v1.len() && v1[p].id@ == k));
        }
    }
    assert(v2[v1.len() as int].id@ == k);
    lemma_target_at(v2, k, v1.len() as int);
}

/// Law: a recorded click raises exactly its own group's count by one.
/// `s2` is the click table after `record` appended one event of link `lid`
/// and group `(r, u)` to `s1`: that group's count grows by exactly one, and
/// the count of every other group, of this link or of any other, is
/// unchanged. With `aggregate`'s contract, the row that `aggregate` then
/// reports for `(r, u)` carries the prior count plus one.
pub proof fn lemma_record_then_aggregate(
    s1: Seq<ClickEvent>,
    s2: Seq<ClickEvent>,
    lid: Seq<char>,
    r: Option<Seq<char>>,
    u: Option<Seq<char>>,
)
    requires
        s2.len() == s1.len() + 1,
        forall|j: int| 0 <= j < s1.len() ==> s2[j] == s1[j],
        click_matches(s2.last(), lid, r, u),
    ensures
        group_count(s2, lid, r, u) == group_count(s1, lid, r, u) + 1,
        forall|lid2: Seq<char>, r2: Option<Seq<char>>, u2: Option<Seq<char>>|
            !click_matches(s2.last(), lid2, r2, u2) ==> group_count(s2, lid2, r2, u2)
                == group_count(s1, lid2, r2, u2),
{
    assert(s2.drop_last() =~= s1);
    assert(group_count(s2, lid, r, u) == group_count(s1, lid, r, u) + 1);
    assert forall|lid2: Seq<char>, r2: Option<Seq<char>>, u2: Option<Seq<char>>|
        !click_matches(s2.last(), lid2, r2, u2) implies group_count(s2, lid2, r2, u2)
        == group_count(s1, lid2, r2, u2) by {
        assert(s2.drop_last() =~= s1);
    }
}

/// Law: update is idempotent under repetition. When a second update stores
/// the same target under the same id, the id is still present (so the
/// second call cannot fail with `NotFound`), the stored target is the same,
/// and every row of the table is as the first update left it.
pub proof fn lemma_update_idempotent(
    v1: Seq<Link>,
    v2: Seq<Link>,
    v3: Seq<Link>,
    id: Seq<char>,
    t: Seq<char>,
)
    requires
        update_effect(v1, v2, id, t),
        update_effect(v2, v3, id, t),
    ensures
        has_id(v2, id),
        target_of(v3, id) == t,
        forall|k: Seq<char>| has_id(v3, k) <==> has_id(v2, k),
        forall|k: Seq<char>| has_id(v2, k) ==> target_of(v3, k) == target_of(v2, k),
{
    assert forall|k: Seq<char>| has_id(v2, k) implies target_of(v3, k) == target_of(v2, k) by {
        if k == id {
            assert(target_of(v3, id) == t && target_of(v2, id) == t);
        }
    }
}

} // verus!
