use crate::catalog::{SizeCatalog, SizeEntry};
use crate::display::{display_text, size_display};
use vstd::prelude::*;

verus! {

/// Most games listed in the ranked breakdown.
pub const RANK_LIMIT: usize = 20;

/// A game of the account's library as the owned-games service reports it.
#[derive(Clone, Debug)]
pub struct OwnedGame {
    pub app_id: u64,
    pub name: Option<String>,
    pub playtime_minutes: Option<u32>,
}

/// A matched game of the breakdown: its name and its size in millionths of a
/// gibibyte.
#[derive(Clone, Debug)]
pub struct RankedGame {
    pub name: String,
    pub size_micro: u64,
}

/// What a ranked game is: a name and a size.
pub struct RankedView {
    pub name: Seq<char>,
    pub size: u64,
}

impl View for RankedGame {
    type V = RankedView;

    open spec fn view(&self) -> RankedView {
        RankedView { name: self.name@, size: self.size_micro }
    }
}

/// The summary of a library: total size, its display text, the number of
/// games owned and the largest matched games.
#[derive(Clone, Debug)]
pub struct AggregationResult {
    pub total_size_micro: u128,
    pub total_size_display: String,
    pub total_games_owned: usize,
    pub ranked_games: Vec<RankedGame>,
}

/// What a summary is, over mathematical values.
pub struct AggregationView {
    pub total: nat,
    pub display: Seq<char>,
    pub owned: nat,
    pub ranked: Seq<RankedView>,
}

impl View for AggregationResult {
    type V = AggregationView;

    open spec fn view(&self) -> AggregationView {
        AggregationView {
            total: self.total_size_micro as nat,
            display: self.total_size_display@,
            owned: self.total_games_owned as nat,
            ranked: views(self.ranked_games@),
        }
    }
}

pub open spec fn views(v: Seq<RankedGame>) -> Seq<RankedView> {
    v.map_values(|g: RankedGame| g@)
}

/// A matched game as ranked: the service's name where it gave one, else
/// the catalog's, with the catalog's size.
pub open spec fn ranked_of(g: OwnedGame, e: SizeEntry) -> RankedView {
    RankedView {
        name: match g.name {
            Some(n) => n@,
            None => e.name@,
        },
        size: e.size_micro,
    }
}

/// The owned games that the catalog knows, in the order owned, each with
/// its catalog size.
pub open spec fn matched_games(owned: Seq<OwnedGame>, cat: Map<u64, SizeEntry>) -> Seq<RankedView>
    decreases owned.len(),
{
    if owned.len() == 0 {
        Seq::empty()
    } else {
        let prev = matched_games(owned.drop_last(), cat);
        let g = owned.last();
        if cat.contains_key(g.app_id) {
            prev.push(ranked_of(g, cat[g.app_id]))
        } else {
            prev
        }
    }
}

/// The sum of the sizes of `s`.
pub open spec fn total_of(s: Seq<RankedView>) -> nat
    decreases s.len(),
{
    if s.len() == 0 {
        0
    } else {
        total_of(s.drop_last()) + s.last().size as nat
    }
}

/// `x` placed into `t` after every game at least as large as itself.
pub open spec fn insert_desc(t: Seq<RankedView>, x: RankedView) -> Seq<RankedView>
    decreases t.len(),
{
    if t.len() == 0 || t.last().size >= x.size {
        t.push(x)
    } else {
        insert_desc(t.drop_last(), x).push(t.last())
    }
}

/// `s` ordered by size, largest first, games of equal size in their order in `s`.
pub open spec fn rank_desc(s: Seq<RankedView>) -> Seq<RankedView>
    decreases s.len(),
{
    if s.len() == 0 {
        s
    } else {
        insert_desc(rank_desc(s.drop_last()), s.last())
    }
}

/// The first `RANK_LIMIT` games of `s`, or all of them where there are fewer.
pub open spec fn capped(s: Seq<RankedView>) -> Seq<RankedView> {
    if s.len() <= RANK_LIMIT {
        s
    } else {
        s.take(RANK_LIMIT as int)
    }
}

/// The summary of the library `owned` against the catalog `cat`.
pub open spec fn aggregation_of(owned: Seq<OwnedGame>, cat: Map<u64, SizeEntry>) -> AggregationView {
    let total = total_of(matched_games(owned, cat));
    AggregationView {
        total,
        display: display_text(total),
        owned: owned.len(),
        ranked: capped(rank_desc(matched_games(owned, cat))),
    }
}

proof fn lemma_insert_desc_at(t: Seq<RankedView>, x: RankedView, j: int)
    requires
        0 <= j <= t.len(),
        j == 0 || t[j - 1].size >= x.size,
        forall|k: int| j <= k < t.len() ==> t[k].size < x.size,
    ensures
        insert_desc(t, x) == t.insert(j, x),
    decreases t.len(),
{
    if t.len() == j {
        assert(t.push(x) =~= t.insert(j, x));
    } else {
        lemma_insert_desc_at(t.drop_last(), x, j);
        assert(t.drop_last().insert(j, x).push(t.last()) =~= t.insert(j, x));
    }
}

/// Where a game of size `size` goes in `v`: after every game at least as large.
fn insert_position(v: &Vec<RankedGame>, size: u64) -> (j: usize)
    ensures
        j <= v.len(),
        j == 0 || v@[j - 1].size_micro >= size,
        forall|k: int| j <= k < v.len() ==> v@[k].size_micro < size,
{
    let mut j: usize = v.len();
    while j > 0 && v[j - 1].size_micro < size
        invariant
            j <= v.len(),
            forall|k: int| j <= k < v.len() ==> v@[k].size_micro < size,
        decreases j,
    {
        j = j - 1;
    }
    j
}

fn insert_ranked(v: &mut Vec<RankedGame>, x: RankedGame)
    ensures
        views(final(v)@) == insert_desc(views(old(v)@), x@),
{
    let j = insert_position(v, x.size_micro);
    proof {
        lemma_insert_desc_at(views(v@), x@, j as int);
    }
    v.insert(j, x);
    assert(views(v@) =~= views(old(v)@).insert(j as int, x@));
}

/// Joins the owned games against the catalog: counts them, sums the sizes
/// of those the catalog knows, ranks those by size and keeps the largest.
pub fn aggregate(owned: &Vec<OwnedGame>, catalog: &SizeCatalog) -> (r: AggregationResult)
    ensures
        r@ == aggregation_of(owned@, catalog@),
        r.total_games_owned == owned.len(),
        r.total_size_micro == total_of(matched_games(owned@, catalog@)),
{
    let mut total: u128 = 0;
    let mut ranked: Vec<RankedGame> = Vec::new();
    let mut i: usize = 0;
    while i < owned.len()
        invariant
            i <= owned.len(),
            total == total_of(matched_games(owned@.take(i as int), catalog@)),
            total <= i * (u64::MAX as int),
            views(ranked@) == rank_desc(matched_games(owned@.take(i as int), catalog@)),
        decreases owned.len() - i,
    {
        let game = &owned[i];
        let ghost prev = matched_games(owned@.take(i as int), catalog@);
        assert(owned@.take(i + 1).drop_last() =~= owned@.take(i as int));
        assert(owned@.take(i + 1).last() == owned@[i as int]);
        match catalog.lookup(game.app_id) {
            Some(entry) => {
                let name = match &game.name {
                    Some(n) => n.clone(),
                    None => entry.name.clone(),
                };
                let item = RankedGame { name, size_micro: entry.size_micro };
                assert(item@ == ranked_of(*game, *entry));
                assert(total + entry.size_micro <= (i + 1) * (u64::MAX as int)) by (nonlinear_arith)
                    requires
                        total <= i * (u64::MAX as int),
                        entry.size_micro <= u64::MAX,
                ;
                assert((i + 1) * (u64::MAX as int) <= u128::MAX) by (nonlinear_arith)
                    requires
                        i < usize::MAX,
                        usize::MAX <= u64::MAX,
                ;
                let ghost item_view = item@;
                assert(prev.push(item_view).drop_last() =~= prev);
                total = total + entry.size_micro as u128;
                insert_ranked(&mut ranked, item);
                assert(matched_games(owned@.take(i + 1), catalog@) == prev.push(item_view));
            },
            None => {
                assert(matched_games(owned@.take(i + 1), catalog@) == prev);
            },
        }
        i = i + 1;
    }
    assert(owned@.take(owned.len() as int) =~= owned@);
    let display = size_display(total);
    if ranked.len() > RANK_LIMIT {
        ranked.truncate(RANK_LIMIT);
        assert(views(ranked@) =~= capped(rank_desc(matched_games(owned@, catalog@))));
    }
    AggregationResult {
        total_size_micro: total,
        total_size_display: display,
        total_games_owned: owned.len(),
        ranked_games: ranked,
    }
}

/// Every game of `s` is at least as large as every game after it.
pub open spec fn sorted_desc(s: Seq<RankedView>) -> bool {
    forall|i: int, j: int| 0 <= i < j < s.len() ==> s[i].size >= s[j].size
}

/// Holds of the games of size `v`.
pub open spec fn size_is(v: u64) -> spec_fn(RankedView) -> bool {
    |g: RankedView| g.size == v
}

proof fn lemma_insert_desc_len(t: Seq<RankedView>, x: RankedView)
    ensures
        insert_desc(t, x).len() == t.len() + 1,
    decreases t.len(),
{
    if t.len() > 0 && t.last().size < x.size {
        lemma_insert_desc_len(t.drop_last(), x);
    }
}

proof fn lemma_insert_desc_lower(t: Seq<RankedView>, x: RankedView, b: u64)
    requires
        forall|k: int| 0 <= k < t.len() ==> t[k].size >= b,
        x.size >= b,
    ensures
        forall|k: int| 0 <= k < insert_desc(t, x).len() ==> insert_desc(t, x)[k].size >= b,
    decreases t.len(),
{
    lemma_insert_desc_len(t, x);
    if t.len() > 0 && t.last().size < x.size {
        let rest = t.drop_last();
        lemma_insert_desc_lower(rest, x, b);
        lemma_insert_desc_len(rest, x);
        assert forall|k: int| 0 <= k < insert_desc(t, x).len() implies insert_desc(t, x)[k].size
            >= b by {
            if k < insert_desc(rest, x).len() {
                assert(insert_desc(t, x)[k] == insert_desc(rest, x)[k]);
            }
        }
    }
}

proof fn lemma_insert_desc_sorted(t: Seq<RankedView>, x: RankedView)
    requires
        sorted_desc(t),
    ensures
        sorted_desc(insert_desc(t, x)),
    decreases t.len(),
{
    if t.len() > 0 && t.last().size < x.size {
        let rest = t.drop_last();
        lemma_insert_desc_sorted(rest, x);
        lemma_insert_desc_lower(rest, x, t.last().size);
        lemma_insert_desc_len(rest, x);
    }
}

proof fn lemma_insert_desc_filter(t: Seq<RankedView>, x: RankedView, v: u64)
    ensures
        insert_desc(t, x).filter(size_is(v)) == if x.size == v {
            t.filter(size_is(v)).push(x)
        } else {
            t.filter(size_is(v))
        },
    decreases t.len(),
{
    broadcast use Seq::lemma_filter_push;

    if t.len() > 0 && t.last().size < x.size {
        let rest = t.drop_last();
        lemma_insert_desc_filter(rest, x, v);
        assert(rest.push(t.last()) =~= t);
    }
}

proof fn lemma_rank_desc(s: Seq<RankedView>)
    ensures
        rank_desc(s).len() == s.len(),
        sorted_desc(rank_desc(s)),
        forall|v: u64| #[trigger] rank_desc(s).filter(size_is(v)) == s.filter(size_is(v)),
    decreases s.len(),
{
    broadcast use Seq::lemma_filter_push;

    if s.len() > 0 {
        let rest = s.drop_last();
        lemma_rank_desc(rest);
        lemma_insert_desc_len(rank_desc(rest), s.last());
        lemma_insert_desc_sorted(rank_desc(rest), s.last());
        assert(rest.push(s.last()) =~= s);
        assert forall|v: u64| #[trigger] rank_desc(s).filter(size_is(v)) == s.filter(size_is(v)) by {
            lemma_insert_desc_filter(rank_desc(rest), s.last(), v);
        }
    }
}

/// The breakdown holds the `RANK_LIMIT` largest matched games, or all of them
/// where there are fewer, from largest to smallest; it is the start of an
/// order of all matched games in which games of equal size keep the order in
/// which they are owned.
pub proof fn lemma_ranking(owned: Seq<OwnedGame>, cat: Map<u64, SizeEntry>)
    ensures
        ({
            let m = matched_games(owned, cat);
            let r = aggregation_of(owned, cat).ranked;
            &&& rank_desc(m).len() == m.len()
            &&& sorted_desc(rank_desc(m))
            &&& r.len() == if m.len() <= RANK_LIMIT { m.len() } else { RANK_LIMIT as nat }
            &&& sorted_desc(r)
            &&& r == rank_desc(m).take(r.len() as int)
            &&& forall|v: u64| #[trigger] rank_desc(m).filter(size_is(v)) == m.filter(size_is(v))
        }),
{
    let m = matched_games(owned, cat);
    lemma_rank_desc(m);
    assert(rank_desc(m).take(rank_desc(m).len() as int) =~= rank_desc(m));
}

/// Two summaries of the same library against the same catalog are equal.
pub proof fn lemma_aggregate_deterministic(
    owned: Seq<OwnedGame>,
    cat: Map<u64, SizeEntry>,
    first: AggregationResult,
    second: AggregationResult,
)
    requires
        first@ == aggregation_of(owned, cat),
        second@ == aggregation_of(owned, cat),
    ensures
        first@ == second@,
        first.total_size_micro == second.total_size_micro,
        first.total_size_display@ == second.total_size_display@,
        first.total_games_owned == second.total_games_owned,
        views(first.ranked_games@) == views(second.ranked_games@),
{
}

/// A game that the catalog does not know changes neither the total nor the
/// breakdown; it only counts as owned.
pub proof fn lemma_unknown_game_adds_nothing(owned: Seq<OwnedGame>, cat: Map<u64, SizeEntry>, g: OwnedGame)
    requires
        !cat.contains_key(g.app_id),
    ensures
        aggregation_of(owned.push(g), cat).total == aggregation_of(owned, cat).total,
        aggregation_of(owned.push(g), cat).ranked == aggregation_of(owned, cat).ranked,
        aggregation_of(owned.push(g), cat).owned == aggregation_of(owned, cat).owned + 1,
{
    assert(owned.push(g).drop_last() =~= owned);
}

} // verus!
