//! Aggregation of per-date results: concatenation in arrival order, a
//! stable sort by publish instant, and the projections to one content
//! variant.

use vstd::prelude::*;
use vstd::seq_lib::*;
use crate::content::{Articles, Content, TextArticle, Video};
use crate::errors::Error;

verus! {

/// Whether a sequence of records is ordered by publish instant, earliest
/// first.
pub open spec fn sorted_by_date(s: Seq<Content>) -> bool {
    forall |i: int, j: int| 0 <= i < j < s.len() ==>
        #[trigger] s[i].spec_date() <= #[trigger] s[j].spec_date()
}

/// A record inserted among others: after every trailing record with a later
/// publish instant, and after every record with the same one.
pub open spec fn insert_by_date(s: Seq<Content>, c: Content) -> Seq<Content>
    decreases s.len(),
{
    if s.len() == 0 {
        seq![c]
    } else if s.last().spec_date() <= c.spec_date() {
        s.push(c)
    } else {
        insert_by_date(s.drop_last(), c).push(s.last())
    }
}

/// The stable sort of records by publish instant: each record inserted in
/// turn, never before an earlier or equal one.
pub open spec fn sort_by_date_spec(s: Seq<Content>) -> Seq<Content>
    decreases s.len(),
{
    if s.len() == 0 {
        Seq::empty()
    } else {
        insert_by_date(sort_by_date_spec(s.drop_last()), s.last())
    }
}

/// Inserting at the scanned position is what `insert_by_date` denotes.
proof fn lemma_insert_at(s: Seq<Content>, c: Content, j: int)
    requires
        0 <= j <= s.len(),
        forall |k: int| j <= k < s.len() ==> #[trigger] s[k].spec_date() > c.spec_date(),
        j > 0 ==> s[j - 1].spec_date() <= c.spec_date(),
    ensures
        insert_by_date(s, c) == s.take(j).push(c) + s.skip(j),
    decreases s.len(),
{
    if s.len() == 0 {
        assert(insert_by_date(s, c) =~= s.take(j).push(c) + s.skip(j));
    } else if s.last().spec_date() <= c.spec_date() {
        assert(j == s.len());
        assert(s.push(c) =~= s.take(j).push(c) + s.skip(j));
    } else {
        assert(j < s.len());
        lemma_insert_at(s.drop_last(), c, j);
        assert(insert_by_date(s.drop_last(), c).push(s.last()) =~= s.take(j).push(c) + s.skip(j));
    }
}

/// Inserts a record into an already-built list at its sorted position.
fn insert_by_date_exec(out: &mut Vec<Content>, c: Content)
    ensures
        final(out)@ == insert_by_date(old(out)@, c),
{
    let key = c.date();
    let mut j: usize = out.len();
    while j > 0 && out[j - 1].date() > key
        invariant
            key == c.spec_date(),
            j <= out@.len(),
            forall |k: int| j <= k < out@.len() ==> #[trigger] out@[k].spec_date() > c.spec_date(),
        decreases j,
    {
        j -= 1;
    }
    proof {
        lemma_insert_at(out@, c, j as int);
    }
    let ghost before = out@;
    out.insert(j, c);
    proof {
        assert(out@ =~= before.take(j as int).push(c) + before.skip(j as int));
    }
}

/// Sorts records by publish instant, records with one instant keeping their
/// relative order.
pub fn sort_by_date(list: Vec<Content>) -> (r: Vec<Content>)
    ensures
        r@ == sort_by_date_spec(list@),
{
    let ghost all: Seq<Content> = list@;
    let mut rest = list;
    let n = rest.len();
    proof {
        assert(all.len() == n as int);
    }
    let mut out: Vec<Content> = Vec::new();
    let mut i: usize = 0;
    while rest.len() > 0
        invariant
            all.len() <= usize::MAX,
            i + rest@.len() == all.len(),
            rest@ == all.skip(i as int),
            out@ == sort_by_date_spec(all.take(i as int)),
        decreases rest@.len(),
    {
        let c = rest.remove(0);
        proof {
            assert(c == all[i as int]);
            assert(all.skip(i as int).remove(0) =~= all.skip(i + 1));
            assert(all.take(i + 1).drop_last() =~= all.take(i as int));
            assert(all.take(i + 1).last() == all[i as int]);
        }
        insert_by_date_exec(&mut out, c);
        i += 1;
    }
    proof {
        assert(all.take(all.len() as int) =~= all);
    }
    out
}

/// Inserting adds exactly the inserted record to the records held.
proof fn lemma_insert_multiset(s: Seq<Content>, c: Content)
    ensures
        insert_by_date(s, c).to_multiset() == s.to_multiset().insert(c),
    decreases s.len(),
{
    broadcast use group_to_multiset_ensures;
    if s.len() == 0 {
        assert(insert_by_date(s, c) =~= s.push(c));
    } else if s.last().spec_date() <= c.spec_date() {
    } else {
        let dl = s.drop_last();
        lemma_insert_multiset(dl, c);
        assert(insert_by_date(s, c) == insert_by_date(dl, c).push(s.last()));
        assert(dl.to_multiset().insert(c).insert(s.last())
            =~= dl.to_multiset().insert(s.last()).insert(c));
        assert(dl.push(s.last()) =~= s);
    }
}

/// Inserting keeps a sorted list sorted.
proof fn lemma_insert_sorted(s: Seq<Content>, c: Content)
    requires
        sorted_by_date(s),
    ensures
        sorted_by_date(insert_by_date(s, c)),
    decreases s.len(),
{
    broadcast use group_to_multiset_ensures;
    if s.len() == 0 {
    } else if s.last().spec_date() <= c.spec_date() {
        let u = s.push(c);
        assert forall |i: int, j: int| 0 <= i < j < u.len()
            implies #[trigger] u[i].spec_date() <= #[trigger] u[j].spec_date() by {
            if j == u.len() - 1 {
                assert(u[i] == s[i]);
                if i < s.len() - 1 {
                    assert(s[i].spec_date() <= s[s.len() - 1].spec_date());
                }
            }
        }
    } else {
        let dl = s.drop_last();
        assert(sorted_by_date(dl)) by {
            assert forall |i: int, j: int| 0 <= i < j < dl.len()
                implies #[trigger] dl[i].spec_date() <= #[trigger] dl[j].spec_date() by {
                assert(dl[i] == s[i]);
                assert(dl[j] == s[j]);
            }
        }
        lemma_insert_sorted(dl, c);
        lemma_insert_multiset(dl, c);
        let v = insert_by_date(dl, c);
        let u = v.push(s.last());
        assert forall |i: int, j: int| 0 <= i < j < u.len()
            implies #[trigger] u[i].spec_date() <= #[trigger] u[j].spec_date() by {
            if j == u.len() - 1 {
                assert(u[i] == v[i]);
                assert(v.contains(v[i]));
                assert(v.to_multiset().count(v[i]) > 0);
                assert(dl.to_multiset().insert(c).count(v[i]) > 0);
                if v[i] == c {
                    assert(u[i].spec_date() <= u[j].spec_date());
                } else {
                    assert(dl.to_multiset().count(v[i]) > 0);
                    assert(dl.contains(v[i]));
                    let k = choose |k: int| 0 <= k < dl.len() && dl[k] == v[i];
                    assert(s[k].spec_date() <= s[s.len() - 1].spec_date());
                }
            }
        }
    }
}

/// Inserting a record appends it to the records sharing its instant and
/// leaves every other instant's records as they were.
proof fn lemma_insert_filter(s: Seq<Content>, c: Content, d: i64)
    ensures
        insert_by_date(s, c).filter(|x: Content| x.spec_date() == d) == (
            if c.spec_date() == d {
                s.filter(|x: Content| x.spec_date() == d).push(c)
            } else {
                s.filter(|x: Content| x.spec_date() == d)
            }
        ),
    decreases s.len(),
{
    reveal(Seq::filter);
    let pred = |x: Content| x.spec_date() == d;
    if s.len() == 0 {
        assert(insert_by_date(s, c) =~= Seq::<Content>::empty().push(c));
        assert(Seq::<Content>::empty().push(c).drop_last() =~= Seq::<Content>::empty());
        assert(s =~= Seq::<Content>::empty());
    } else if s.last().spec_date() <= c.spec_date() {
        assert(s.push(c).drop_last() =~= s);
    } else {
        let dl = s.drop_last();
        lemma_insert_filter(dl, c, d);
        let v = insert_by_date(dl, c);
        assert(insert_by_date(s, c) == v.push(s.last()));
        assert(v.push(s.last()).drop_last() =~= v);
        assert(s.drop_last() =~= dl);
    }
}

/// The sort leaves its result ordered by publish instant.
pub proof fn lemma_sort_sorted(s: Seq<Content>)
    ensures
        sorted_by_date(sort_by_date_spec(s)),
    decreases s.len(),
{
    if s.len() > 0 {
        lemma_sort_sorted(s.drop_last());
        lemma_insert_sorted(sort_by_date_spec(s.drop_last()), s.last());
    }
}

/// The sort keeps exactly the records it was given.
pub proof fn lemma_sort_permutes(s: Seq<Content>)
    ensures
        sort_by_date_spec(s).to_multiset() == s.to_multiset(),
    decreases s.len(),
{
    broadcast use group_to_multiset_ensures;
    if s.len() > 0 {
        lemma_sort_permutes(s.drop_last());
        lemma_insert_multiset(sort_by_date_spec(s.drop_last()), s.last());
        assert(s.drop_last().push(s.last()) =~= s);
    }
}

/// The sort is stable: the records of any one publish instant come out in
/// the order they went in.
pub proof fn lemma_sort_stable(s: Seq<Content>, d: i64)
    ensures
        sort_by_date_spec(s).filter(|x: Content| x.spec_date() == d)
            == s.filter(|x: Content| x.spec_date() == d),
    decreases s.len(),
{
    reveal(Seq::filter);
    if s.len() > 0 {
        lemma_sort_stable(s.drop_last(), d);
        lemma_insert_filter(sort_by_date_spec(s.drop_last()), s.last(), d);
    }
}

/// The first failed outcome among many, if any failed.
pub open spec fn first_error(rs: Seq<Result<Articles, Error>>) -> Option<Error>
    decreases rs.len(),
{
    if rs.len() == 0 {
        Option::None
    } else {
        match rs[0] {
            Result::Err(e) => Option::Some(e),
            Result::Ok(_) => first_error(rs.skip(1)),
        }
    }
}

/// The news of every outcome, in arrival order; a failed outcome
/// contributes nothing.
pub open spec fn concat_news(rs: Seq<Result<Articles, Error>>) -> Seq<Content>
    decreases rs.len(),
{
    if rs.len() == 0 {
        Seq::empty()
    } else {
        concat_news(rs.drop_last()) + (match rs.last() {
            Result::Ok(a) => a.news@,
            Result::Err(_) => Seq::empty(),
        })
    }
}

/// With every outcome up to a failed one successful, that failure is the
/// first.
proof fn lemma_first_error_at(rs: Seq<Result<Articles, Error>>, i: int)
    requires
        0 <= i < rs.len(),
        forall |k: int| 0 <= k < i ==> rs[k] is Ok,
        rs[i] is Err,
    ensures
        rs[i] matches Result::Err(e) && first_error(rs) == Some(e),
    decreases i,
{
    if i > 0 {
        lemma_first_error_at(rs.skip(1), i - 1);
    }
}

/// With every outcome successful, no failure is the first.
proof fn lemma_no_first_error(rs: Seq<Result<Articles, Error>>)
    requires
        forall |k: int| 0 <= k < rs.len() ==> rs[k] is Ok,
    ensures
        first_error(rs) is None,
    decreases rs.len(),
{
    if rs.len() > 0 {
        lemma_no_first_error(rs.skip(1));
    }
}

/// Merges per-date outcomes: the first failure, if one occurred, fails the
/// whole aggregate with no partial content; otherwise every batch's news,
/// concatenated in arrival order and stably sorted by publish instant.
pub fn collect_articles(outcomes: Vec<Result<Articles, Error>>) -> (r: Result<Vec<Content>, Error>)
    ensures
        first_error(outcomes@) matches Some(e) ==> (r matches Err(e2) && e2 == e),
        first_error(outcomes@) is None ==> (
            r matches Ok(cs) && cs@ == sort_by_date_spec(concat_news(outcomes@))
        ),
{
    let ghost all: Seq<Result<Articles, Error>> = outcomes@;
    let mut rest = outcomes;
    let n = rest.len();
    proof {
        assert(all.len() == n as int);
    }
    let mut content: Vec<Content> = Vec::new();
    let mut i: usize = 0;
    #[verifier::loop_isolation(false)]
    while rest.len() > 0
        invariant
            all.len() <= usize::MAX,
            i + rest@.len() == all.len(),
            rest@ == all.skip(i as int),
            forall |k: int| 0 <= k < i ==> all[k] is Ok,
            content@ == concat_news(all.take(i as int)),
        decreases rest@.len(),
    {
        let next = rest.remove(0);
        proof {
            assert(next == all[i as int]);
            assert(all.skip(i as int).remove(0) =~= all.skip(i + 1));
            assert(all.take(i + 1).drop_last() =~= all.take(i as int));
            assert(all.take(i + 1).last() == all[i as int]);
        }
        match next {
            Ok(mut a) => {
                content.append(&mut a.news);
            }
            Err(e) => {
                proof {
                    assert(all[i as int] == Result::<Articles, Error>::Err(e));
                    lemma_first_error_at(all, i as int);
                    assert(first_error(all) == Some(e));
                }
                return Err(e);
            }
        }
        i += 1;
    }
    proof {
        assert(all.take(all.len() as int) =~= all);
        lemma_no_first_error(all);
    }
    Ok(sort_by_date(content))
}

/// The text articles among records, in their relative order.
pub open spec fn texts_of(s: Seq<Content>) -> Seq<TextArticle>
    decreases s.len(),
{
    if s.len() == 0 {
        Seq::empty()
    } else {
        texts_of(s.drop_last()) + (match s.last() {
            Content::TextArticle(t) => seq![t],
            Content::Video(_) => Seq::empty(),
        })
    }
}

/// The videos among records, in their relative order.
pub open spec fn videos_of(s: Seq<Content>) -> Seq<Video>
    decreases s.len(),
{
    if s.len() == 0 {
        Seq::empty()
    } else {
        videos_of(s.drop_last()) + (match s.last() {
            Content::Video(v) => seq![v],
            Content::TextArticle(_) => Seq::empty(),
        })
    }
}

/// Keeps exactly the text articles, in their relative order.
pub fn text_articles(list: Vec<Content>) -> (r: Vec<TextArticle>)
    ensures
        r@ == texts_of(list@),
{
    let ghost all: Seq<Content> = list@;
    let mut rest = list;
    let n = rest.len();
    proof {
        assert(all.len() == n as int);
    }
    let mut out: Vec<TextArticle> = Vec::new();
    let mut i: usize = 0;
    while rest.len() > 0
        invariant
            all.len() <= usize::MAX,
            i + rest@.len() == all.len(),
            rest@ == all.skip(i as int),
            out@ == texts_of(all.take(i as int)),
        decreases rest@.len(),
    {
        let next = rest.remove(0);
        proof {
            assert(next == all[i as int]);
            assert(all.skip(i as int).remove(0) =~= all.skip(i + 1));
            assert(all.take(i + 1).drop_last() =~= all.take(i as int));
            assert(all.take(i + 1).last() == all[i as int]);
        }
        match next {
            Content::TextArticle(t) => {
                out.push(t);
                proof {
                    assert(out@ =~= texts_of(all.take(i + 1)));
                }
            }
            Content::Video(_) => {
                proof {
                    assert(out@ =~= texts_of(all.take(i + 1)));
                }
            }
        }
        i += 1;
    }
    proof {
        assert(all.take(all.len() as int) =~= all);
    }
    out
}

/// Keeps exactly the videos, in their relative order.
pub fn video_articles(list: Vec<Content>) -> (r: Vec<Video>)
    ensures
        r@ == videos_of(list@),
{
    let ghost all: Seq<Content> = list@;
    let mut rest = list;
    let n = rest.len();
    proof {
        assert(all.len() == n as int);
    }
    let mut out: Vec<Video> = Vec::new();
    let mut i: usize = 0;
    while rest.len() > 0
        invariant
            all.len() <= usize::MAX,
            i + rest@.len() == all.len(),
            rest@ == all.skip(i as int),
            out@ == videos_of(all.take(i as int)),
        decreases rest@.len(),
    {
        let next = rest.remove(0);
        proof {
            assert(next == all[i as int]);
            assert(all.skip(i as int).remove(0) =~= all.skip(i + 1));
            assert(all.take(i + 1).drop_last() =~= all.take(i as int));
            assert(all.take(i + 1).last() == all[i as int]);
        }
        match next {
            Content::Video(v) => {
                out.push(v);
                proof {
                    assert(out@ =~= videos_of(all.take(i + 1)));
                }
            }
            Content::TextArticle(_) => {
                proof {
                    assert(out@ =~= videos_of(all.take(i + 1)));
                }
            }
        }
        i += 1;
    }
    proof {
        assert(all.take(all.len() as int) =~= all);
    }
    out
}

} // verus!
