//! The station index — station identifier to coordinates — and the
//! coordinate injection that enriches decoded readings with it.

use vstd::prelude::*;
use crate::daily::DailyReading;
use crate::decimal::Decimal;
use crate::monthly::MonthlyReading;
use crate::station::{station_id_spec, Station};
use crate::text::str_eq;

verus! {

/// The map a sequence of index entries denotes; later entries win.
pub open spec fn map_of_entries(es: Seq<(String, (Decimal, Decimal))>) -> Map<
    Seq<char>,
    (Decimal, Decimal),
>
    decreases es.len(),
{
    if es.len() == 0 {
        Map::empty()
    } else {
        map_of_entries(es.drop_last()).insert(es.last().0@, es.last().1)
    }
}

/// Whether no two entries share a key.
pub open spec fn unique_keys(es: Seq<(String, (Decimal, Decimal))>) -> bool {
    forall|i: int, j: int|
        0 <= i < j < es.len() ==> (#[trigger] es[i]).0@ != (#[trigger] es[j]).0@
}

/// The station index: a read-only mapping from station identifier to
/// (latitude, longitude), built once per run.
pub struct StationIndex {
    entries: Vec<(String, (Decimal, Decimal))>,
}

impl View for StationIndex {
    type V = Map<Seq<char>, (Decimal, Decimal)>;

    closed spec fn view(&self) -> Map<Seq<char>, (Decimal, Decimal)> {
        map_of_entries(self.entries@)
    }
}

proof fn lemma_map_of_not_contains(es: Seq<(String, (Decimal, Decimal))>, k: Seq<char>)
    requires
        forall|i: int| 0 <= i < es.len() ==> (#[trigger] es[i]).0@ != k,
    ensures
        !map_of_entries(es).contains_key(k),
    decreases es.len(),
{
    if es.len() > 0 {
        let h = es.drop_last();
        assert forall|i: int| 0 <= i < h.len() implies (#[trigger] h[i]).0@ != k by {
            assert(h[i] == es[i]);
        }
        lemma_map_of_not_contains(h, k);
    }
}

proof fn lemma_map_of_dom_len(es: Seq<(String, (Decimal, Decimal))>)
    requires
        unique_keys(es),
    ensures
        map_of_entries(es).dom().finite(),
        map_of_entries(es).dom().len() == es.len(),
    decreases es.len(),
{
    broadcast use vstd::set::group_set_axioms;

    if es.len() > 0 {
        let h = es.drop_last();
        assert forall|i: int, j: int|
            0 <= i < j < h.len() implies (#[trigger] h[i]).0@ != (#[trigger] h[j]).0@ by {
            assert(h[i] == es[i] && h[j] == es[j]);
        }
        lemma_map_of_dom_len(h);
        assert forall|i: int| 0 <= i < h.len() implies (#[trigger] h[i]).0@ != es.last().0@ by {
            assert(h[i] == es[i]);
        }
        lemma_map_of_not_contains(h, es.last().0@);
    }
}

/// Updating the entry that holds key `k` with a new value for the same key
/// updates the denoted map at `k`.
proof fn lemma_map_of_update(
    es: Seq<(String, (Decimal, Decimal))>,
    j: int,
    e: (String, (Decimal, Decimal)),
)
    requires
        unique_keys(es),
        0 <= j < es.len(),
        e.0@ == es[j].0@,
    ensures
        map_of_entries(es.update(j, e)) == map_of_entries(es).insert(e.0@, e.1),
    decreases es.len(),
{
    let es2 = es.update(j, e);
    if j == es.len() - 1 {
        assert(es2.drop_last() =~= es.drop_last());
        assert(map_of_entries(es) == map_of_entries(es.drop_last()).insert(
            es.last().0@,
            es.last().1,
        ));
        assert(map_of_entries(es2) == map_of_entries(es.drop_last()).insert(e.0@, e.1));
        assert(map_of_entries(es.drop_last()).insert(es.last().0@, es.last().1).insert(e.0@, e.1)
            =~= map_of_entries(es.drop_last()).insert(e.0@, e.1));
    } else {
        let h = es.drop_last();
        assert forall|a: int, b: int|
            0 <= a < b < h.len() implies (#[trigger] h[a]).0@ != (#[trigger] h[b]).0@ by {
            assert(h[a] == es[a] && h[b] == es[b]);
        }
        assert(h[j] == es[j]);
        lemma_map_of_update(h, j, e);
        assert(es2.drop_last() =~= h.update(j, e));
        assert(es2.last() == es.last());
        // the untouched last key differs from `k`, so the inserts commute
        assert(es.last().0@ != e.0@) by {
            assert(es[j].0@ != es[es.len() - 1].0@);
        }
        assert(map_of_entries(h).insert(e.0@, e.1).insert(es.last().0@, es.last().1)
            =~= map_of_entries(h).insert(es.last().0@, es.last().1).insert(e.0@, e.1));
    }
}

impl StationIndex {
    /// The index's internal invariant: entry keys are unique, so the
    /// entry count is the size of the map's domain. Constructors establish
    /// it and `insert` preserves it.
    pub closed spec fn wf(self) -> bool {
        unique_keys(self.entries@)
    }

    /// An empty index.
    pub fn new() -> (r: StationIndex)
        ensures
            r.wf(),
            r@ == Map::<Seq<char>, (Decimal, Decimal)>::empty(),
    {
        StationIndex { entries: Vec::new() }
    }

    /// Binds `id` to `coords`, replacing any earlier binding of the same
    /// identifier: later writes win.
    pub fn insert(&mut self, id: String, coords: (Decimal, Decimal))
        requires
            old(self).wf(),
        ensures
            final(self).wf(),
            final(self)@ == old(self)@.insert(id@, coords),
    {
        let ghost es0 = self.entries@;
        let n = self.entries.len();
        let mut j: usize = 0;
        while j < n
            invariant
                0 <= j <= n == self.entries@.len(),
                self.entries@ == es0,
                es0 == old(self).entries@,
                unique_keys(es0),
                forall|k: int| 0 <= k < j ==> (#[trigger] es0[k]).0@ != id@,
            decreases n - j,
        {
            if str_eq(self.entries[j].0.as_str(), id.as_str()) {
                proof {
                    lemma_map_of_update(es0, j as int, (id, coords));
                }
                self.entries.remove(j);
                self.entries.insert(j, (id, coords));
                proof {
                    assert(self.entries@ =~= es0.update(j as int, (id, coords)));
                    assert forall|a: int, b: int|
                        0 <= a < b < self.entries@.len() implies (#[trigger] self.entries@[a]).0@
                        != (#[trigger] self.entries@[b]).0@ by {
                        if a != j && b != j {
                            assert(self.entries@[a] == es0[a] && self.entries@[b] == es0[b]);
                        } else if a == j {
                            assert(self.entries@[a].0@ == es0[j as int].0@ && self.entries@[b]
                                == es0[b]);
                        } else {
                            assert(self.entries@[a] == es0[a] && self.entries@[b].0@
                                == es0[j as int].0@);
                        }
                    }
                }
                return ;
            }
            j += 1;
        }
        proof {
            lemma_map_of_not_contains(es0, id@);
        }
        self.entries.push((id, coords));
        proof {
            assert(self.entries@.drop_last() =~= es0);
            assert forall|a: int, b: int|
                0 <= a < b < self.entries@.len() implies (#[trigger] self.entries@[a]).0@
                != (#[trigger] self.entries@[b]).0@ by {
                if b < es0.len() {
                    assert(self.entries@[a] == es0[a] && self.entries@[b] == es0[b]);
                } else {
                    assert(self.entries@[a] == es0[a]);
                }
            }
        }
    }

    /// The coordinates bound to `id`, if any.
    pub fn get(&self, id: &str) -> (r: Option<(Decimal, Decimal)>)
        ensures
            r == (if self@.contains_key(id@) {
                Some(self@[id@])
            } else {
                None
            }),
    {
        let ghost full = self.entries@;
        let mut i: usize = self.entries.len();
        proof {
            assert(full.subrange(0, full.len() as int) =~= full);
        }
        while i > 0
            invariant
                0 <= i <= full.len(),
                full == self.entries@,
                ({
                    let m = map_of_entries(full);
                    let p = map_of_entries(full.subrange(0, i as int));
                    &&& m.contains_key(id@) == p.contains_key(id@)
                    &&& m.contains_key(id@) ==> m[id@] == p[id@]
                }),
            decreases i,
        {
            i -= 1;
            let ghost pre1 = full.subrange(0, i + 1);
            proof {
                assert(pre1.drop_last() =~= full.subrange(0, i as int));
                assert(pre1.last() == full[i as int]);
            }
            if str_eq(self.entries[i].0.as_str(), id) {
                return Some(self.entries[i].1);
            }
        }
        proof {
            assert(full.subrange(0, 0) =~= Seq::<(String, (Decimal, Decimal))>::empty());
        }
        None
    }

    /// How many stations the index holds.
    pub fn len(&self) -> (r: usize)
        requires
            self.wf(),
        ensures
            r == self@.dom().len(),
    {
        proof {
            lemma_map_of_dom_len(self.entries@);
        }
        self.entries.len()
    }
}

/// The index a station list denotes: each station holding both a latitude
/// and a longitude is bound, later duplicates overwriting earlier ones;
/// stations missing either coordinate are left out entirely.
pub open spec fn station_map_spec(ss: Seq<Station>) -> Map<Seq<char>, (Decimal, Decimal)>
    decreases ss.len(),
{
    if ss.len() == 0 {
        Map::empty()
    } else {
        let m = station_map_spec(ss.drop_last());
        let s = ss.last();
        if s.latitude is Some && s.longitude is Some {
            m.insert(station_id_spec(s), (s.latitude->0, s.longitude->0))
        } else {
            m
        }
    }
}

/// Builds the station index from a station list.
pub fn make_lookup(stations: &Vec<Station>) -> (r: StationIndex)
    ensures
        r.wf(),
        r@ == station_map_spec(stations@),
{
    let mut idx = StationIndex::new();
    let mut i: usize = 0;
    proof {
        assert(stations@.subrange(0, 0) =~= Seq::<Station>::empty());
    }
    while i < stations.len()
        invariant
            0 <= i <= stations@.len(),
            idx.wf(),
            idx@ == station_map_spec(stations@.subrange(0, i as int)),
        decreases stations@.len() - i,
    {
        let ghost pre1 = stations@.subrange(0, i + 1);
        proof {
            assert(pre1.drop_last() =~= stations@.subrange(0, i as int));
            assert(pre1.last() == stations@[i as int]);
        }
        let s = &stations[i];
        match (s.latitude, s.longitude) {
            (Some(lat), Some(lon)) => {
                idx.insert(s.station_id(), (lat, lon));
            },
            _ => {},
        }
        i += 1;
    }
    proof {
        assert(stations@.subrange(0, stations@.len() as int) =~= stations@);
    }
    idx
}

/// Builds the station index for the monthly pipeline; the rule is the same.
pub fn make_lookup_monthly(stations: &Vec<Station>) -> (r: StationIndex)
    ensures
        r.wf(),
        r@ == station_map_spec(stations@),
{
    make_lookup(stations)
}

/// How an enriched daily reading relates to the reading it came from:
/// coordinates come
/// from the index when its station is there, and are untouched when not;
/// every other field is unchanged.
pub open spec fn injected_daily(
    after: DailyReading,
    before: DailyReading,
    m: Map<Seq<char>, (Decimal, Decimal)>,
) -> bool {
    &&& after.id == before.id
    &&& after.year == before.year
    &&& after.month == before.month
    &&& after.properties == before.properties
    &&& after.values == before.values
    &&& (if m.contains_key(before.id@) {
        after.lat == Some(m[before.id@].0) && after.lon == Some(m[before.id@].1)
    } else {
        after.lat == before.lat && after.lon == before.lon
    })
}

/// How an enriched monthly reading relates to the reading it came from.
pub open spec fn injected_monthly(
    after: MonthlyReading,
    before: MonthlyReading,
    m: Map<Seq<char>, (Decimal, Decimal)>,
) -> bool {
    &&& after.id == before.id
    &&& after.year == before.year
    &&& after.month == before.month
    &&& after.properties == before.properties
    &&& after.values == before.values
    &&& (if m.contains_key(before.id@) {
        after.lat == Some(m[before.id@].0) && after.lon == Some(m[before.id@].1)
    } else {
        after.lat == before.lat && after.lon == before.lon
    })
}

/// Joins daily readings with the station list: a total, pure enrichment
/// that never fails and never drops a reading.
pub fn inject_coords(readings: Vec<DailyReading>, stations: Vec<Station>) -> (r: Vec<DailyReading>)
    ensures
        r@.len() == readings@.len(),
        forall|i: int|
            0 <= i < readings@.len() ==> injected_daily(
                #[trigger] r@[i],
                readings@[i],
                station_map_spec(stations@),
            ),
{
    let lookup = make_lookup(&stations);
    let mut out: Vec<DailyReading> = Vec::new();
    let mut rest = readings;
    let ghost all = rest@;
    while rest.len() > 0
        invariant
            out@.len() + rest@.len() == all.len(),
            rest@ == all.subrange(out@.len() as int, all.len() as int),
            lookup@ == station_map_spec(stations@),
            forall|i: int|
                0 <= i < out@.len() ==> injected_daily(#[trigger] out@[i], all[i], lookup@),
        decreases rest@.len(),
    {
        let mut rec = rest.remove(0);
        proof {
            assert(rec == all[out@.len() as int]);
        }
        match lookup.get(rec.id.as_str()) {
            Some(c) => {
                rec.lat = Some(c.0);
                rec.lon = Some(c.1);
            },
            None => {},
        }
        out.push(rec);
        proof {
            assert(rest@ =~= all.subrange(out@.len() as int, all.len() as int));
        }
    }
    out
}

/// Joins monthly readings with the station list, by the same rule.
pub fn inject_coords_monthly(readings: Vec<MonthlyReading>, stations: Vec<Station>) -> (r: Vec<
    MonthlyReading,
>)
    ensures
        r@.len() == readings@.len(),
        forall|i: int|
            0 <= i < readings@.len() ==> injected_monthly(
                #[trigger] r@[i],
                readings@[i],
                station_map_spec(stations@),
            ),
{
    let lookup = make_lookup_monthly(&stations);
    let mut out: Vec<MonthlyReading> = Vec::new();
    let mut rest = readings;
    let ghost all = rest@;
    while rest.len() > 0
        invariant
            out@.len() + rest@.len() == all.len(),
            rest@ == all.subrange(out@.len() as int, all.len() as int),
            lookup@ == station_map_spec(stations@),
            forall|i: int|
                0 <= i < out@.len() ==> injected_monthly(#[trigger] out@[i], all[i], lookup@),
        decreases rest@.len(),
    {
        let mut rec = rest.remove(0);
        proof {
            assert(rec == all[out@.len() as int]);
        }
        match lookup.get(rec.id.as_str()) {
            Some(c) => {
                rec.lat = Some(c.0);
                rec.lon = Some(c.1);
            },
            None => {},
        }
        out.push(rec);
        proof {
            assert(rest@ =~= all.subrange(out@.len() as int, all.len() as int));
        }
    }
    out
}

} // verus!
