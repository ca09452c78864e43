//! The job-list view's filter and order.
//!
//! The upstream returns one record per job; the list view keeps those whose
//! lowercased name contains the lowercased filter string, and presents them
//! newest first by the date they were added, records without a date ahead of
//! all others.  A [`TorrentEntry`] carries the two fields this logic reads —
//! name and added date — together with the record's position in the full
//! upstream result, so the caller can map the outcome back onto the records.

use vstd::multiset::Multiset;
use vstd::prelude::*;

verus! {

broadcast use {vstd::seq_lib::group_to_multiset_ensures, vstd::multiset::group_multiset_axioms};

/// What `str::to_lowercase` returns: a function of the characters alone.
pub uninterp spec fn lower_of(s: Seq<char>) -> Seq<char>;

/// Relies on `str::to_lowercase`: the result depends on the characters
/// alone.
#[verifier::external_body]
fn lowercase(s: &str) -> (r: String)
    ensures
        r@ == lower_of(s@),
{
    s.to_lowercase()
}

/// Whether `needle` occurs contiguously in `haystack`.
pub open spec fn spec_contains_sub(haystack: Seq<char>, needle: Seq<char>) -> bool {
    exists|i: int|
        0 <= i <= haystack.len() - needle.len() && #[trigger] haystack.subrange(
            i,
            i + needle.len(),
        ) == needle
}

/// Substring search: whether `needle` occurs contiguously in `haystack`.
pub fn contains_sub(haystack: &str, needle: &str) -> (r: bool)
    ensures
        r == spec_contains_sub(haystack@, needle@),
{
    let hl = haystack.unicode_len();
    let nl = needle.unicode_len();
    if nl > hl {
        return false;
    }
    let mut i: usize = 0;
    while i <= hl - nl
        invariant
            0 <= i <= hl - nl + 1,
            nl <= hl,
            hl == haystack@.len(),
            nl == needle@.len(),
            forall|k: int|
                0 <= k < i ==> #[trigger] haystack@.subrange(k, k + needle@.len()) != needle@,
        decreases hl + 1 - i,
    {
        let mut j: usize = 0;
        let mut matched = true;
        while j < nl
            invariant
                0 <= j <= nl,
                i + nl <= hl,
                hl == haystack@.len(),
                nl == needle@.len(),
                matched == (forall|k: int|
                    0 <= k < j ==> haystack@[i + k] == #[trigger] needle@[k]),
            decreases nl - j,
        {
            if haystack.get_char(i + j) != needle.get_char(j) {
                matched = false;
                proof {
                    assert(haystack@[i + j] != needle@[j as int]);
                }
                j = nl;
            } else {
                j = j + 1;
            }
        }
        if matched {
            proof {
                assert(haystack@.subrange(i as int, i + needle@.len()) =~= needle@);
            }
            return true;
        }
        proof {
            assert(haystack@.subrange(i as int, i + needle@.len()) != needle@) by {
                let k = choose|k: int|
                    0 <= k < needle@.len() && haystack@[i + k] != needle@[k];
                assert(haystack@.subrange(i as int, i + needle@.len())[k] == haystack@[i + k]);
            }
        }
        i = i + 1;
    }
    false
}

/// One job record as the list logic sees it: the fields the filter and the
/// order read, and the record's position in the full upstream result.
pub struct TorrentEntry {
    /// The job's name, as the upstream returned it.
    pub name: String,
    /// The date the job was added, where the upstream supplied one.
    pub added_date: Option<u64>,
    /// The record's index in the full upstream result list.
    pub index: usize,
}

/// The list order: records without an added date first, then newest first.
/// This is a total order.
pub open spec fn entry_le(a: TorrentEntry, b: TorrentEntry) -> bool {
    match (a.added_date, b.added_date) {
        (Option::None, _) => true,
        (Option::Some(_), Option::None) => false,
        (Option::Some(x), Option::Some(y)) => x >= y,
    }
}

/// Sortedness of a record sequence under the list order.
pub open spec fn entries_sorted(s: Seq<TorrentEntry>) -> bool {
    forall|i: int, j: int| 0 <= i < j < s.len() ==> entry_le(#[trigger] s[i], #[trigger] s[j])
}

/// Whether a record survives the filter: no filter keeps everything, a
/// filter keeps the records whose lowercased name contains it lowercased.
pub open spec fn entry_matches(e: TorrentEntry, filter: Option<Seq<char>>) -> bool {
    match filter {
        None => true,
        Some(f) => spec_contains_sub(lower_of(e.name@), lower_of(f)),
    }
}

/// The subsequence of records that survive the filter, in their original
/// order.
pub open spec fn matching_entries(s: Seq<TorrentEntry>, filter: Option<Seq<char>>) -> Seq<
    TorrentEntry,
> {
    s.filter(|e: TorrentEntry| entry_matches(e, filter))
}

/// How the filtered subsequence grows by one record.
proof fn lemma_matching_step(s: Seq<TorrentEntry>, filter: Option<Seq<char>>)
    requires
        s.len() > 0,
    ensures
        entry_matches(s.last(), filter) ==> matching_entries(s, filter) == matching_entries(
            s.drop_last(),
            filter,
        ).push(s.last()),
        !entry_matches(s.last(), filter) ==> matching_entries(s, filter) == matching_entries(
            s.drop_last(),
            filter,
        ),
{
    reveal_with_fuel(Seq::filter, 2);
}

/// The records of `s` whose added date is `d`, in their order in `s`.
/// Records tie in the list order exactly when their added dates are equal,
/// so these subsequences are what a stable order must keep.
pub open spec fn entries_with_date(s: Seq<TorrentEntry>, d: Option<u64>) -> Seq<TorrentEntry> {
    s.filter(|e: TorrentEntry| e.added_date == d)
}

/// How a date class grows by one record.
proof fn lemma_ewd_step(s: Seq<TorrentEntry>, d: Option<u64>)
    requires
        s.len() > 0,
    ensures
        s.last().added_date == d ==> entries_with_date(s, d) == entries_with_date(
            s.drop_last(),
            d,
        ).push(s.last()),
        s.last().added_date != d ==> entries_with_date(s, d) == entries_with_date(
            s.drop_last(),
            d,
        ),
{
    reveal_with_fuel(Seq::filter, 2);
}

/// A date class of nothing is nothing.
proof fn lemma_ewd_empty(d: Option<u64>)
    ensures
        entries_with_date(Seq::<TorrentEntry>::empty(), d) == Seq::<TorrentEntry>::empty(),
{
    reveal_with_fuel(Seq::filter, 1);
    assert(entries_with_date(Seq::<TorrentEntry>::empty(), d)
        =~= Seq::<TorrentEntry>::empty());
}

/// Date classes distribute over concatenation.
proof fn lemma_ewd_add(a: Seq<TorrentEntry>, b: Seq<TorrentEntry>, d: Option<u64>)
    ensures
        entries_with_date(a + b, d) == entries_with_date(a, d) + entries_with_date(b, d),
    decreases b.len(),
{
    if b.len() == 0 {
        lemma_ewd_empty(d);
        assert(a + b =~= a);
        assert(entries_with_date(a, d) + entries_with_date(b, d) =~= entries_with_date(a, d));
    } else {
        lemma_ewd_add(a, b.drop_last(), d);
        assert((a + b).drop_last() =~= a + b.drop_last());
        assert((a + b).last() == b.last());
        lemma_ewd_step(a + b, d);
        lemma_ewd_step(b, d);
        if b.last().added_date == d {
            assert(entries_with_date(a, d) + entries_with_date(b.drop_last(), d).push(b.last())
                =~= (entries_with_date(a, d) + entries_with_date(b.drop_last(), d)).push(
                b.last(),
            ));
        }
    }
}

/// A sequence without a date holds an empty class of it.
proof fn lemma_ewd_none(s: Seq<TorrentEntry>, d: Option<u64>)
    requires
        forall|i: int| 0 <= i < s.len() ==> (#[trigger] s[i]).added_date != d,
    ensures
        entries_with_date(s, d) == Seq::<TorrentEntry>::empty(),
    decreases s.len(),
{
    if s.len() == 0 {
        lemma_ewd_empty(d);
    } else {
        assert(forall|i: int|
            0 <= i < s.len() - 1 ==> s.drop_last()[i] == #[trigger] s[i]);
        lemma_ewd_none(s.drop_last(), d);
        lemma_ewd_step(s, d);
    }
}

/// The list view's record processing: drops the records whose lowercased
/// name does not contain the lowercased filter, then orders the rest newest
/// first with undated records ahead.  The result holds exactly the
/// surviving records.
pub fn process_torrent_list(entries: Vec<TorrentEntry>, filter: Option<&str>) -> (r: Vec<
    TorrentEntry,
>)
    ensures
        entries_sorted(r@),
        r@.to_multiset() == matching_entries(entries@, spec_opt_str(filter)).to_multiset(),
        forall|d: Option<u64>|
            #[trigger] entries_with_date(r@, d) == entries_with_date(
                matching_entries(entries@, spec_opt_str(filter)),
                d,
            ),
{
    let kept = retain_matching(entries, filter);
    sort_entries(kept)
}

/// An `Option` of a filter string, viewed.
pub open spec fn spec_opt_str(o: Option<&str>) -> Option<Seq<char>> {
    match o {
        Some(s) => Some(s@),
        None => None,
    }
}

/// Keeps exactly the records that survive the filter, in order.
fn retain_matching(entries: Vec<TorrentEntry>, filter: Option<&str>) -> (r: Vec<TorrentEntry>)
    ensures
        r@ == matching_entries(entries@, spec_opt_str(filter)),
{
    let ghost filter_view = spec_opt_str(filter);
    let filter_lower = match filter {
        Some(f) => Some(lowercase(f)),
        None => None,
    };
    let mut kept: Vec<TorrentEntry> = Vec::new();
    let mut i: usize = 0;
    proof {
        assert(entries@.take(0) =~= Seq::<TorrentEntry>::empty());
        reveal_with_fuel(Seq::filter, 1);
    }
    while i < entries.len()
        invariant
            0 <= i <= entries@.len(),
            filter_view == spec_opt_str(filter),
            (filter_lower matches Some(fl) && filter_view matches Some(f) && fl@ == lower_of(f))
                || (filter_lower is None && filter_view is None),
            kept@ == matching_entries(entries@.take(i as int), filter_view),
        decreases entries@.len() - i,
    {
        let e = &entries[i];
        let keep = match &filter_lower {
            Some(fl) => contains_sub(lowercase(e.name.as_str()).as_str(), fl.as_str()),
            None => true,
        };
        proof {
            assert(keep == entry_matches(entries@[i as int], filter_view));
            assert(entries@.take(i + 1).drop_last() =~= entries@.take(i as int));
            assert(entries@.take(i + 1).last() == entries@[i as int]);
            lemma_matching_step(entries@.take(i + 1), filter_view);
        }
        if keep {
            let copied = TorrentEntry {
                name: e.name.clone(),
                added_date: e.added_date,
                index: e.index,
            };
            proof {
                assert(copied == entries@[i as int]);
            }
            kept.push(copied);
        }
        i = i + 1;
    }
    proof {
        assert(entries@.take(entries@.len() as int) =~= entries@);
    }
    kept
}

/// Selection sort under the list order: repeatedly moves the first least
/// remaining record to the output.  Returns the same records, sorted, with
/// records of equal added date kept in their input order — a stable sort.
fn sort_entries(mut v: Vec<TorrentEntry>) -> (r: Vec<TorrentEntry>)
    ensures
        entries_sorted(r@),
        r@.to_multiset() == v@.to_multiset(),
        forall|d: Option<u64>|
            #[trigger] entries_with_date(r@, d) == entries_with_date(v@, d),
{
    let ghost orig = v@;
    let mut out: Vec<TorrentEntry> = Vec::new();
    proof {
        assert(out@.to_multiset().add(v@.to_multiset()) =~= orig.to_multiset());
        assert forall|d: Option<u64>|
            #[trigger] entries_with_date(out@, d) + entries_with_date(v@, d)
                == entries_with_date(orig, d) by {
            lemma_ewd_empty(d);
            assert(out@ =~= Seq::<TorrentEntry>::empty());
            assert(entries_with_date(out@, d) + entries_with_date(v@, d) =~= entries_with_date(
                orig,
                d,
            ));
        }
    }
    while v.len() > 0
        invariant
            out@.to_multiset().add(v@.to_multiset()) == orig.to_multiset(),
            entries_sorted(out@),
            forall|a: int, b: int|
                0 <= a < out@.len() && 0 <= b < v@.len() ==> entry_le(
                    #[trigger] out@[a],
                    #[trigger] v@[b],
                ),
            forall|d: Option<u64>|
                #[trigger] entries_with_date(out@, d) + entries_with_date(v@, d)
                    == entries_with_date(orig, d),
        decreases v@.len(),
    {
        let mut m: usize = 0;
        let mut k: usize = 1;
        while k < v.len()
            invariant
                0 <= m < v@.len(),
                m < k <= v@.len() || (k <= v@.len() && m == 0),
                forall|t: int| 0 <= t < k ==> entry_le(v@[m as int], #[trigger] v@[t]),
                forall|t: int| 0 <= t < m ==> !entry_le(#[trigger] v@[t], v@[m as int]),
            decreases v@.len() - k,
        {
            let le = entry_le_exec(&v[m], &v[k]);
            if !le {
                proof {
                    // everything before k sits strictly above v[k]: it sat
                    // at or above v[m], which v[k] strictly undercuts
                    assert forall|t: int| 0 <= t < k implies !entry_le(
                        #[trigger] v@[t],
                        v@[k as int],
                    ) by {
                        assert(entry_le(v@[m as int], v@[t]));
                    }
                }
                m = k;
            }
            k = k + 1;
        }
        let ghost prev_out = out@;
        let ghost prev_v = v@;
        let x = v.remove(m);
        out.push(x);
        proof {
            assert(out@ =~= prev_out.push(prev_v[m as int]));
            assert(prev_v.contains(prev_v[m as int]));
            assert(prev_v.to_multiset().count(prev_v[m as int]) > 0);
            vstd::seq_lib::to_multiset_build(prev_out, prev_v[m as int]);
            assert(out@.to_multiset() == prev_out.push(prev_v[m as int]).to_multiset());
            vstd::seq_lib::to_multiset_remove(prev_v, m as int);
            assert(v@.to_multiset() == prev_v.remove(m as int).to_multiset());
            assert(out@.to_multiset().add(v@.to_multiset()) =~= orig.to_multiset());
            // stability: the record moved out is the first of its date
            // class, so each class's order survives the move
            let moved = prev_v[m as int];
            let head = prev_v.take(m as int);
            let tail = prev_v.skip(m + 1);
            assert(prev_v =~= head + (seq![moved] + tail));
            assert(v@ =~= head + tail);
            assert(out@ =~= prev_out + seq![moved]);
            assert forall|i: int| 0 <= i < head.len() implies (#[trigger] head[i]).added_date
                != moved.added_date by {
                assert(head[i] == prev_v[i]);
                // equal dates would tie, but everything before m is
                // strictly above v[m]
                assert(!entry_le(prev_v[i], moved));
            }
            assert forall|d: Option<u64>|
                #[trigger] entries_with_date(out@, d) + entries_with_date(v@, d)
                    == entries_with_date(orig, d) by {
                lemma_ewd_add(head, seq![moved] + tail, d);
                lemma_ewd_add(seq![moved], tail, d);
                lemma_ewd_add(head, tail, d);
                lemma_ewd_add(prev_out, seq![moved], d);
                lemma_ewd_empty(d);
                lemma_ewd_step(seq![moved], d);
                assert(seq![moved].drop_last() =~= Seq::<TorrentEntry>::empty());
                if d == moved.added_date {
                    lemma_ewd_none(head, d);
                    assert(entries_with_date(seq![moved], d)
                        =~= Seq::<TorrentEntry>::empty().push(moved));
                    assert(entries_with_date(out@, d) + entries_with_date(v@, d)
                        =~= entries_with_date(prev_out, d) + entries_with_date(prev_v, d));
                } else {
                    assert(entries_with_date(out@, d) + entries_with_date(v@, d)
                        =~= entries_with_date(prev_out, d) + entries_with_date(prev_v, d));
                }
            }
            assert forall|a: int, b: int|
                0 <= a < out@.len() && 0 <= b < v@.len() implies entry_le(out@[a], v@[b]) by {
                if a < prev_out.len() {
                    if b < m {
                        assert(v@[b] == prev_v[b]);
                    } else {
                        assert(v@[b] == prev_v[b + 1]);
                    }
                } else {
                    assert(out@[a] == prev_v[m as int]);
                    if b < m {
                        assert(v@[b] == prev_v[b]);
                    } else {
                        assert(v@[b] == prev_v[b + 1]);
                    }
                }
            }
        }
    }
    proof {
        assert(v@.to_multiset() =~= Multiset::<TorrentEntry>::empty());
        assert(out@.to_multiset() =~= orig.to_multiset());
        assert forall|d: Option<u64>|
            #[trigger] entries_with_date(out@, d) == entries_with_date(orig, d) by {
            lemma_ewd_empty(d);
            assert(v@ =~= Seq::<TorrentEntry>::empty());
            assert(entries_with_date(out@, d) + entries_with_date(v@, d) =~= entries_with_date(
                out@,
                d,
            ));
        }
    }
    out
}

/// The list order, executably.
fn entry_le_exec(a: &TorrentEntry, b: &TorrentEntry) -> (r: bool)
    ensures
        r == entry_le(*a, *b),
{
    match (a.added_date, b.added_date) {
        (Option::None, _) => true,
        (Option::Some(_), Option::None) => false,
        (Option::Some(x), Option::Some(y)) => x >= y,
    }
}

/// The single-item view's record selection: the first returned record, or
/// nothing when the upstream returned none — the caller turns "nothing"
/// into the `removed` event.
pub fn first_record_index(record_count: usize) -> (r: Option<usize>)
    ensures
        record_count == 0 ==> r is None,
        record_count > 0 ==> r == Some(0usize),
{
    if record_count == 0 {
        None
    } else {
        Some(0)
    }
}

} // verus!
