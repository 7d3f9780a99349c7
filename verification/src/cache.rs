use vstd::prelude::*;

use crate::dates::{
    Date, DateTime, TimeOfDay, date_valid, datetime_valid, iso_date_bytes, iso_dt_bytes,
    push_bytes, push_iso_date, push_iso_dt, push_time, push_wire_date, read_iso_date, read_iso_dt,
    lemma_iso_date_rt, lemma_iso_dt_rt, lemma_time_rt, lemma_wire_date_rt, read_time,
    read_wire_date, spec_parse_iso_date, spec_parse_iso_dt, spec_parse_time, spec_parse_wire_date,
    time_bytes, wire_date_bytes,
};
use crate::model::{PrayerTime, PrayerTimeV, pt_valid};
use crate::zones::{Zones, lemma_zone_code_rt, parse_zone5, spec_parse_zone, zone_code};

verus! {

/// One cached record: when it was last refreshed, and the schedule entry.
pub struct CacheEntry {
    pub last_update: DateTime,
    pub data: PrayerTime,
}

/// The mathematical value of a cached record.
pub ghost struct CacheEntryV {
    pub last_update: DateTime,
    pub data: PrayerTimeV,
}

impl View for CacheEntry {
    type V = CacheEntryV;

    open spec fn view(&self) -> CacheEntryV {
        CacheEntryV { last_update: self.last_update, data: self.data@ }
    }
}

/// All records of one zone, keyed by the schedule entry's own date.
pub struct ZoneBlock {
    pub zone: Zones,
    pub recs: Vec<CacheEntry>,
}

/// The mathematical value of one zone's records.
pub ghost struct ZoneBlockV {
    pub zone: Zones,
    pub recs: Seq<CacheEntryV>,
}

impl View for ZoneBlock {
    type V = ZoneBlockV;

    open spec fn view(&self) -> ZoneBlockV {
        ZoneBlockV { zone: self.zone, recs: self.recs@.map_values(|r: CacheEntry| r@) }
    }
}

/// The persistent store: a mapping from zone to a per-date index of cached
/// records, held as a sequence of zone blocks in first-insertion order.
pub struct Cache {
    rows: Vec<ZoneBlock>,
}

impl View for Cache {
    type V = Seq<ZoneBlockV>;

    closed spec fn view(&self) -> Seq<ZoneBlockV> {
        self.rows@.map_values(|b: ZoneBlock| b@)
    }
}

pub open spec fn rec_valid(r: CacheEntryV) -> bool {
    datetime_valid(r.last_update) && pt_valid(r.data)
}

pub open spec fn block_valid(b: ZoneBlockV) -> bool {
    forall|i: int| 0 <= i < b.recs.len() ==> rec_valid(#[trigger] b.recs[i])
}

/// Every record in the store is a well-formed calendar value.
pub open spec fn cache_valid(rows: Seq<ZoneBlockV>) -> bool {
    forall|i: int| 0 <= i < rows.len() ==> block_valid(#[trigger] rows[i])
}

// ---------- lookup ----------

/// The record of a given date within one zone's block, if any.
pub open spec fn blk_lookup(recs: Seq<CacheEntryV>, d: Date) -> Option<CacheEntryV>
    decreases recs.len(),
{
    if recs.len() == 0 {
        None
    } else if recs[0].data.date == d {
        Some(recs[0])
    } else {
        blk_lookup(recs.skip(1), d)
    }
}

/// The record stored for a zone and date, if any.
pub open spec fn cache_lookup(rows: Seq<ZoneBlockV>, z: Zones, d: Date) -> Option<CacheEntryV>
    decreases rows.len(),
{
    if rows.len() == 0 {
        None
    } else if rows[0].zone == z {
        blk_lookup(rows[0].recs, d)
    } else {
        cache_lookup(rows.skip(1), z, d)
    }
}

// ---------- insert ----------

/// Upserting into one zone's block: the first record with the same date is
/// overwritten whole; otherwise the record is appended.
pub open spec fn blk_insert(recs: Seq<CacheEntryV>, r: CacheEntryV) -> Seq<CacheEntryV>
    decreases recs.len(),
{
    if recs.len() == 0 {
        seq![r]
    } else if recs[0].data.date == r.data.date {
        seq![r] + recs.skip(1)
    } else {
        seq![recs[0]] + blk_insert(recs.skip(1), r)
    }
}

/// Upserting into the store: the first block of the zone takes the record;
/// a zone not yet present gets a fresh block at the end.
pub open spec fn spec_insert(rows: Seq<ZoneBlockV>, z: Zones, r: CacheEntryV) -> Seq<ZoneBlockV>
    decreases rows.len(),
{
    if rows.len() == 0 {
        seq![ZoneBlockV { zone: z, recs: seq![r] }]
    } else if rows[0].zone == z {
        seq![ZoneBlockV { zone: z, recs: blk_insert(rows[0].recs, r) }] + rows.skip(1)
    } else {
        seq![rows[0]] + spec_insert(rows.skip(1), z, r)
    }
}

proof fn lemma_blk_insert_prefix(recs: Seq<CacheEntryV>, r: CacheEntryV, k: int)
    requires
        0 <= k <= recs.len(),
        forall|j: int| 0 <= j < k ==> (#[trigger] recs[j]).data.date != r.data.date,
    ensures
        blk_insert(recs, r) == recs.take(k) + blk_insert(recs.skip(k), r),
    decreases k,
{
    if k == 0 {
        assert(recs.skip(0) =~= recs);
        assert(recs.take(0) + blk_insert(recs, r) =~= blk_insert(recs, r));
    } else {
        lemma_blk_insert_prefix(recs.skip(1), r, k - 1);
        assert(recs.skip(1).take(k - 1) =~= recs.take(k).skip(1));
        assert(recs.skip(1).skip(k - 1) =~= recs.skip(k));
        assert(blk_insert(recs, r) =~= recs.take(k) + blk_insert(recs.skip(k), r));
    }
}

proof fn lemma_spec_insert_prefix(rows: Seq<ZoneBlockV>, z: Zones, r: CacheEntryV, k: int)
    requires
        0 <= k <= rows.len(),
        forall|j: int| 0 <= j < k ==> (#[trigger] rows[j]).zone != z,
    ensures
        spec_insert(rows, z, r) == rows.take(k) + spec_insert(rows.skip(k), z, r),
    decreases k,
{
    if k == 0 {
        assert(rows.skip(0) =~= rows);
        assert(rows.take(0) + spec_insert(rows, z, r) =~= spec_insert(rows, z, r));
    } else {
        lemma_spec_insert_prefix(rows.skip(1), z, r, k - 1);
        assert(rows.skip(1).take(k - 1) =~= rows.take(k).skip(1));
        assert(rows.skip(1).skip(k - 1) =~= rows.skip(k));
        assert(spec_insert(rows, z, r) =~= rows.take(k) + spec_insert(rows.skip(k), z, r));
    }
}

/// Upserting is last-write-wins at its key and leaves every other key's
/// record untouched.
pub proof fn lemma_blk_lookup_insert(recs: Seq<CacheEntryV>, r: CacheEntryV, d: Date)
    ensures
        blk_lookup(blk_insert(recs, r), d) == if d == r.data.date {
            Some(r)
        } else {
            blk_lookup(recs, d)
        },
    decreases recs.len(),
{
    reveal_with_fuel(blk_lookup, 3);
    reveal_with_fuel(blk_insert, 3);
    if recs.len() == 0 {
        assert(blk_insert(recs, r) =~= seq![r]);
        assert(seq![r].skip(1) =~= Seq::<CacheEntryV>::empty());
    } else if recs[0].data.date == r.data.date {
        assert((seq![r] + recs.skip(1))[0] == r);
        assert((seq![r] + recs.skip(1)).skip(1) =~= recs.skip(1));
    } else {
        lemma_blk_lookup_insert(recs.skip(1), r, d);
        assert((seq![recs[0]] + blk_insert(recs.skip(1), r))[0] == recs[0]);
        assert((seq![recs[0]] + blk_insert(recs.skip(1), r)).skip(1) =~= blk_insert(
            recs.skip(1),
            r,
        ));
    }
}

/// Upserting the store is last-write-wins at its `(zone, date)` key and
/// leaves every other key's record untouched.
pub proof fn lemma_cache_lookup_insert(
    rows: Seq<ZoneBlockV>,
    z: Zones,
    r: CacheEntryV,
    z2: Zones,
    d2: Date,
)
    ensures
        cache_lookup(spec_insert(rows, z, r), z2, d2) == if z2 == z && d2 == r.data.date {
            Some(r)
        } else {
            cache_lookup(rows, z2, d2)
        },
    decreases rows.len(),
{
    reveal_with_fuel(cache_lookup, 3);
    reveal_with_fuel(spec_insert, 3);
    reveal_with_fuel(blk_lookup, 3);
    if rows.len() == 0 {
        let nb = ZoneBlockV { zone: z, recs: seq![r] };
        assert(spec_insert(rows, z, r) =~= seq![nb]);
        assert(seq![nb][0] == nb);
        assert(seq![nb].skip(1) =~= Seq::<ZoneBlockV>::empty());
        assert(seq![r][0] == r);
        assert(seq![r].skip(1) =~= Seq::<CacheEntryV>::empty());
    } else if rows[0].zone == z {
        let nb = ZoneBlockV { zone: z, recs: blk_insert(rows[0].recs, r) };
        assert((seq![nb] + rows.skip(1))[0] == nb);
        assert((seq![nb] + rows.skip(1)).skip(1) =~= rows.skip(1));
        lemma_blk_lookup_insert(rows[0].recs, r, d2);
    } else {
        lemma_cache_lookup_insert(rows.skip(1), z, r, z2, d2);
        assert((seq![rows[0]] + spec_insert(rows.skip(1), z, r))[0] == rows[0]);
        assert((seq![rows[0]] + spec_insert(rows.skip(1), z, r)).skip(1) =~= spec_insert(
            rows.skip(1),
            z,
            r,
        ));
    }
}

proof fn lemma_blk_insert_valid(recs: Seq<CacheEntryV>, r: CacheEntryV)
    requires
        rec_valid(r),
        forall|i: int| 0 <= i < recs.len() ==> rec_valid(#[trigger] recs[i]),
    ensures
        forall|i: int|
            0 <= i < blk_insert(recs, r).len() ==> rec_valid(#[trigger] blk_insert(recs, r)[i]),
    decreases recs.len(),
{
    let res = blk_insert(recs, r);
    if recs.len() == 0 {
        assert(res =~= seq![r]);
        assert(res[0] == r);
    } else if recs[0].data.date == r.data.date {
        assert forall|i: int| 0 <= i < res.len() implies rec_valid(res[i]) by {
            if i == 0 {
                assert(res[i] == r);
            } else {
                assert(res[i] == recs.skip(1)[i - 1]);
                assert(recs.skip(1)[i - 1] == recs[i]);
            }
        }
    } else {
        assert(forall|i: int|
            0 <= i < recs.skip(1).len() ==> rec_valid(#[trigger] recs.skip(1)[i]));
        lemma_blk_insert_valid(recs.skip(1), r);
        let tail = blk_insert(recs.skip(1), r);
        assert forall|i: int| 0 <= i < res.len() implies rec_valid(res[i]) by {
            if i == 0 {
                assert(res[i] == recs[0]);
            } else {
                assert(res[i] == tail[i - 1]);
            }
        }
    }
}

/// Upserting a well-formed record keeps the whole store well-formed.
pub proof fn lemma_insert_preserves_valid(rows: Seq<ZoneBlockV>, z: Zones, r: CacheEntryV)
    requires
        rec_valid(r),
        cache_valid(rows),
    ensures
        cache_valid(spec_insert(rows, z, r)),
    decreases rows.len(),
{
    let res = spec_insert(rows, z, r);
    if rows.len() == 0 {
        let nb = ZoneBlockV { zone: z, recs: seq![r] };
        assert(res =~= seq![nb]);
        assert(res[0] == nb);
        assert(seq![r][0] == r);
        assert(block_valid(nb));
    } else if rows[0].zone == z {
        lemma_blk_insert_valid(rows[0].recs, r);
        let nb = ZoneBlockV { zone: z, recs: blk_insert(rows[0].recs, r) };
        assert(block_valid(nb));
        assert forall|i: int| 0 <= i < res.len() implies block_valid(res[i]) by {
            if i == 0 {
                assert(res[i] == nb);
            } else {
                assert(res[i] == rows.skip(1)[i - 1]);
                assert(rows.skip(1)[i - 1] == rows[i]);
            }
        }
    } else {
        assert(cache_valid(rows.skip(1))) by {
            assert(forall|i: int|
                0 <= i < rows.skip(1).len() ==> block_valid(#[trigger] rows.skip(1)[i]));
        }
        lemma_insert_preserves_valid(rows.skip(1), z, r);
        let tail = spec_insert(rows.skip(1), z, r);
        assert forall|i: int| 0 <= i < res.len() implies block_valid(res[i]) by {
            if i == 0 {
                assert(res[i] == rows[0]);
            } else {
                assert(res[i] == tail[i - 1]);
            }
        }
    }
}

// ---------- exec scan helpers ----------

fn find_zone(rows: &Vec<ZoneBlock>, z: Zones) -> (r: Option<usize>)
    ensures
        match r {
            Some(i) => i < rows@.len() && rows@[i as int].zone == z && forall|j: int|
                0 <= j < i ==> (#[trigger] rows@[j]).zone != z,
            None => forall|j: int| 0 <= j < rows@.len() ==> (#[trigger] rows@[j]).zone != z,
        },
{
    let n = rows.len();
    let mut i: usize = 0;
    while i < n
        invariant
            i <= n,
            n == rows@.len(),
            forall|j: int| 0 <= j < i ==> (#[trigger] rows@[j]).zone != z,
        decreases n - i,
    {
        if rows[i].zone == z {
            return Some(i);
        }
        i = i + 1;
    }
    None
}

fn find_date(recs: &Vec<CacheEntry>, d: Date) -> (r: Option<usize>)
    ensures
        match r {
            Some(k) => k < recs@.len() && recs@[k as int].data.date == d && forall|j: int|
                0 <= j < k ==> (#[trigger] recs@[j]).data.date != d,
            None => forall|j: int| 0 <= j < recs@.len() ==> (#[trigger] recs@[j]).data.date != d,
        },
{
    let n = recs.len();
    let mut k: usize = 0;
    while k < n
        invariant
            k <= n,
            n == recs@.len(),
            forall|j: int| 0 <= j < k ==> (#[trigger] recs@[j]).data.date != d,
        decreases n - k,
    {
        if recs[k].data.date == d {
            return Some(k);
        }
        k = k + 1;
    }
    None
}

impl Cache {
    /// An empty store.
    pub fn new() -> (r: Cache)
        ensures
            r@ == Seq::<ZoneBlockV>::empty(),
            cache_valid(r@),
    {
        let c = Cache { rows: Vec::new() };
        proof {
            assert(c@ =~= Seq::<ZoneBlockV>::empty());
        }
        c
    }

    /// Upserts the record for `(zone, ptimes.date)`, overwriting any prior
    /// record for that exact key and stamping it with `now`.
    #[verifier::rlimit(80)]
    pub fn insert(&mut self, zone: Zones, ptimes: PrayerTime, now: DateTime)
        requires
            pt_valid(ptimes@),
            datetime_valid(now),
        ensures
            final(self)@ == spec_insert(
                old(self)@,
                zone,
                CacheEntryV { last_update: now, data: ptimes@ },
            ),
            cache_valid(old(self)@) ==> cache_valid(final(self)@),
    {
        let ghost rows0 = self@;
        let ghost rv = CacheEntryV { last_update: now, data: ptimes@ };
        let date = ptimes.date;
        let rec = CacheEntry { last_update: now, data: ptimes };
        match find_zone(&self.rows, zone) {
            None => {
                let ghost n = rows0.len() as int;
                let ghost nb = ZoneBlockV { zone, recs: seq![rv] };
                let mut recs: Vec<CacheEntry> = Vec::new();
                recs.push(rec);
                let block = ZoneBlock { zone, recs };
                proof {
                    assert(block@.recs =~= seq![rv]);
                }
                let ghost blockv = block@;
                self.rows.push(block);
                proof {
                    lemma_spec_insert_prefix(rows0, zone, rv, n);
                    assert(rows0.skip(n) =~= Seq::<ZoneBlockV>::empty());
                    assert(spec_insert(Seq::<ZoneBlockV>::empty(), zone, rv) =~= seq![nb]);
                    assert(rows0.take(n) =~= rows0);
                    assert(blockv =~= nb);
                    assert(self@ =~= rows0 + seq![nb]) by {
                        assert(self@.len() == rows0.len() + 1);
                        assert forall|ii: int| 0 <= ii < rows0.len() implies self@[ii]
                            == rows0[ii] by {
                            assert(self.rows@[ii] == old(self).rows@[ii]);
                        }
                        assert(self@[rows0.len() as int] == blockv);
                    }
                    assert(self@ =~= spec_insert(rows0, zone, rv));
                }
            },
            Some(i) => {
                let ghost rowsx = self.rows@;
                let mut block = self.rows.remove(i);
                let ghost recs0 = block@.recs;
                proof {
                    assert(block =~= rowsx[i as int]);
                    assert(recs0 == rows0[i as int].recs);
                }
                match find_date(&block.recs, date) {
                    None => {
                        let ghost m = recs0.len() as int;
                        block.recs.push(rec);
                        proof {
                            lemma_blk_insert_prefix(recs0, rv, m);
                            assert(recs0.skip(m) =~= Seq::<CacheEntryV>::empty());
                            assert(blk_insert(Seq::<CacheEntryV>::empty(), rv) =~= seq![rv]);
                            assert(recs0.take(m) =~= recs0);
                            assert(block@.recs =~= recs0 + seq![rv]) by {
                                assert(block@.recs.len() == recs0.len() + 1);
                                assert(block@.recs[m] == rv);
                            }
                            assert(block@.recs =~= blk_insert(recs0, rv));
                        }
                    },
                    Some(k) => {
                        block.recs.remove(k);
                        block.recs.insert(k, rec);
                        proof {
                            lemma_blk_insert_prefix(recs0, rv, k as int);
                            assert(blk_insert(recs0.skip(k as int), rv) =~= seq![rv] + recs0.skip(
                                k as int,
                            ).skip(1));
                            assert(recs0.skip(k as int).skip(1) =~= recs0.skip(k as int + 1));
                            assert(block@.recs =~= recs0.take(k as int) + (seq![rv] + recs0.skip(
                                k as int + 1,
                            ))) by {
                                assert(block@.recs.len() == recs0.len());
                                assert forall|ii: int| 0 <= ii < recs0.len() implies block@.recs[ii]
                                    == (recs0.take(k as int) + (seq![rv] + recs0.skip(
                                    k as int + 1,
                                )))[ii] by {
                                    if ii < k as int {
                                    } else if ii == k as int {
                                        assert(block@.recs[ii] == rv);
                                    } else {
                                    }
                                }
                            }
                            assert(block@.recs =~= blk_insert(recs0, rv));
                        }
                    },
                }
                let ghost blockv = block@;
                proof {
                    assert(blockv.zone == zone);
                    assert(blockv.recs == blk_insert(rows0[i as int].recs, rv));
                }
                self.rows.insert(i, block);
                proof {
                    lemma_spec_insert_prefix(rows0, zone, rv, i as int);
                    let nb = ZoneBlockV { zone, recs: blk_insert(rows0[i as int].recs, rv) };
                    assert(rows0.skip(i as int)[0] == rows0[i as int]);
                    assert(spec_insert(rows0.skip(i as int), zone, rv) =~= seq![nb] + rows0.skip(
                        i as int,
                    ).skip(1));
                    assert(rows0.skip(i as int).skip(1) =~= rows0.skip(i as int + 1));
                    assert(blockv =~= nb);
                    assert(self@ =~= rows0.take(i as int) + (seq![nb] + rows0.skip(i as int + 1)))
                        by {
                        assert(self@.len() == rows0.len());
                        assert forall|ii: int| 0 <= ii < rows0.len() implies self@[ii] == (
                        rows0.take(i as int) + (seq![nb] + rows0.skip(i as int + 1)))[ii] by {
                            if ii < i as int {
                                assert(self.rows@[ii] == rowsx[ii]);
                            } else if ii == i as int {
                                assert(self@[ii] == blockv);
                            } else {
                                assert(self.rows@[ii] == rowsx[ii]);
                            }
                        }
                    }
                    assert(self@ =~= spec_insert(rows0, zone, rv));
                }
            },
        }
        proof {
            if cache_valid(rows0) {
                lemma_insert_preserves_valid(rows0, zone, rv);
            }
        }
    }
}


// ---------- the cache file: JSON-shaped text, canonical form ----------
//
// The store persists as one JSON object: zone code to an object keyed by
// ISO date, each date holding `last_update` and the entry `data` with its
// wire spellings. The writer below emits a canonical form and the reader
// accepts exactly that form; any other input counts as "no cache yet".

/// JSON string escaping for one byte: quote and backslash take a backslash.
pub open spec fn esc_byte(b: u8) -> Seq<u8> {
    if b == ('"' as u8) || b == ('\\' as u8) {
        seq![('\\' as u8), b]
    } else {
        seq![b]
    }
}

/// JSON string escaping of a whole byte string.
pub open spec fn esc(s: Seq<u8>) -> Seq<u8>
    decreases s.len(),
{
    if s.len() == 0 {
        Seq::empty()
    } else {
        esc_byte(s[0]) + esc(s.skip(1))
    }
}

pub proof fn lemma_esc_append(a: Seq<u8>, b: Seq<u8>)
    ensures
        esc(a + b) == esc(a) + esc(b),
    decreases a.len(),
{
    if a.len() == 0 {
        assert(a + b =~= b);
        assert(esc(a) + esc(b) =~= esc(b));
    } else {
        lemma_esc_append(a.skip(1), b);
        assert((a + b).skip(1) =~= a.skip(1) + b);
        assert((a + b)[0] == a[0]);
        assert(esc(a + b) =~= esc(a) + esc(b));
    }
}

/// Scans an escaped string body from `i` up to its closing quote, undoing
/// the escapes; returns the content and the position after the quote.
pub open spec fn ps_str(s: Seq<u8>, i: int) -> Option<(Seq<u8>, int)>
    decreases s.len() - i,
    when i >= 0
{
    if i >= s.len() {
        None
    } else if s[i] == ('"' as u8) {
        Some((Seq::empty(), i + 1))
    } else if s[i] == ('\\' as u8) {
        if i + 1 < s.len() {
            match ps_str(s, i + 2) {
                Some((c, j)) => Some((seq![s[i + 1]] + c, j)),
                None => None,
            }
        } else {
            None
        }
    } else {
        match ps_str(s, i + 1) {
            Some((c, j)) => Some((seq![s[i]] + c, j)),
            None => None,
        }
    }
}

/// Scanning what the escaper wrote gives back the content and stops right
/// after the closing quote.
pub proof fn lemma_ps_str_rt(s: Seq<u8>, c: Seq<u8>, i: int)
    requires
        0 <= i,
        i + esc(c).len() + 1 <= s.len(),
        s.subrange(i, i + esc(c).len() + 1) == esc(c) + seq![('"' as u8)],
    ensures
        ps_str(s, i) == Some((c, i + esc(c).len() + 1)),
    decreases c.len(),
{
    let full = esc(c) + seq![('"' as u8)];
    if c.len() == 0 {
        assert(s[i] == full[0]);
    } else {
        let b = c[0];
        let tail = c.skip(1);
        assert(esc(c) == esc_byte(b) + esc(tail));
        if b == ('"' as u8) || b == ('\\' as u8) {
            assert(s[i] == full[0]);
            assert(s[i + 1] == full[1]);
            assert(s[i] == ('\\' as u8));
            assert(s[i + 1] == b);
            assert(s.subrange(i + 2, i + 2 + esc(tail).len() + 1) =~= esc(tail) + seq![
                ('"' as u8),
            ]) by {
                assert forall|k: int| 0 <= k < esc(tail).len() + 1 implies #[trigger] (s.subrange(
                    i + 2,
                    i + 2 + esc(tail).len() + 1,
                )[k]) == (esc(tail) + seq![('"' as u8)])[k] by {
                    assert(s[i + 2 + k] == full[2 + k]);
                    assert(full[2 + k] == (esc(tail) + seq![('"' as u8)])[k]);
                }
            }
            lemma_ps_str_rt(s, tail, i + 2);
            assert(seq![s[i + 1]] + tail =~= c);
        } else {
            assert(s[i] == full[0]);
            assert(s[i] == b);
            assert(s.subrange(i + 1, i + 1 + esc(tail).len() + 1) =~= esc(tail) + seq![
                ('"' as u8),
            ]) by {
                assert forall|k: int| 0 <= k < esc(tail).len() + 1 implies #[trigger] (s.subrange(
                    i + 1,
                    i + 1 + esc(tail).len() + 1,
                )[k]) == (esc(tail) + seq![('"' as u8)])[k] by {
                    assert(s[i + 1 + k] == full[1 + k]);
                    assert(full[1 + k] == (esc(tail) + seq![('"' as u8)])[k]);
                }
            }
            lemma_ps_str_rt(s, tail, i + 1);
            assert(seq![s[i]] + tail =~= c);
        }
    }
}

/// Appends the escaped form of `content` followed by the closing quote.
fn push_escaped(out: &mut Vec<u8>, content: &Vec<u8>)
    ensures
        final(out)@ == old(out)@ + esc(content@) + seq![('"' as u8)],
{
    let n = content.len();
    let mut i: usize = 0;
    while i < n
        invariant
            i <= n,
            n == content@.len(),
            out@ == old(out)@ + esc(content@.take(i as int)),
        decreases n - i,
    {
        let b = content[i];
        if b == ('"' as u8) || b == ('\\' as u8) {
            out.push('\\' as u8);
        }
        out.push(b);
        i = i + 1;
        proof {
            lemma_esc_append(content@.take(i - 1), seq![content@[i - 1]]);
            assert(content@.take(i as int) =~= content@.take(i - 1) + seq![content@[i - 1]]);
            assert(esc(seq![content@[i - 1]]) =~= esc_byte(content@[i - 1])) by {
                assert(seq![content@[i - 1]].skip(1) =~= Seq::<u8>::empty());
                assert(esc(Seq::<u8>::empty()) =~= Seq::<u8>::empty());
                assert(esc_byte(content@[i - 1]) + Seq::<u8>::empty() =~= esc_byte(
                    content@[i - 1],
                ));
            }
            assert(out@ =~= old(out)@ + esc(content@.take(i as int)));
        }
    }
    out.push('"' as u8);
    proof {
        assert(content@.take(n as int) =~= content@);
        assert(out@ =~= old(out)@ + esc(content@) + seq![('"' as u8)]);
    }
}

/// Scans an escaped string body, undoing the escapes; the executable twin
/// of `ps_str`.
fn scan_string(s: &Vec<u8>, i: usize) -> (r: Option<(Vec<u8>, usize)>)
    ensures
        match r {
            Some((c, j)) => ps_str(s@, i as int) == Some((c@, j as int)),
            None => ps_str(s@, i as int) is None,
        },
{
    let n = s.len();
    let mut acc: Vec<u8> = Vec::new();
    let mut k: usize = i;
    while k < n
        invariant
            i <= k,
            n == s@.len(),
            ps_str(s@, i as int) == (match ps_str(s@, k as int) {
                Some((c, j)) => Some::<(Seq<u8>, int)>((acc@ + c, j)),
                None => None::<(Seq<u8>, int)>,
            }),
        decreases n - k,
    {
        let b = s[k];
        if b == ('"' as u8) {
            proof {
                assert(acc@ + Seq::<u8>::empty() =~= acc@);
            }
            return Some((acc, k + 1));
        } else if b == ('\\' as u8) {
            if k + 1 < n {
                let ghost accv = acc@;
                acc.push(s[k + 1]);
                proof {
                    let (c2, j2) = ps_str(s@, k as int + 2)->Some_0;
                    if ps_str(s@, k as int + 2) is Some {
                        assert(accv + (seq![s@[k as int + 1]] + c2) =~= acc@ + c2);
                    }
                }
                k = k + 2;
            } else {
                return None;
            }
        } else {
            let ghost accv = acc@;
            acc.push(b);
            proof {
                let (c2, j2) = ps_str(s@, k as int + 1)->Some_0;
                if ps_str(s@, k as int + 1) is Some {
                    assert(accv + (seq![s@[k as int]] + c2) =~= acc@ + c2);
                }
            }
            k = k + 1;
        }
    }
    None
}


// ---------- canonical fragments of the cache file ----------

#[verifier::opaque]
pub open spec fn frag_pt_open() -> Seq<u8> {
    seq![('{' as u8), ('"' as u8), ('h' as u8), ('i' as u8), ('j' as u8), ('r' as u8), ('i' as u8), ('"' as u8), (':' as u8)]
}

#[verifier::opaque]
pub open spec fn frag_date_key() -> Seq<u8> {
    seq![(',' as u8), ('"' as u8), ('d' as u8), ('a' as u8), ('t' as u8), ('e' as u8), ('"' as u8), (':' as u8)]
}

#[verifier::opaque]
pub open spec fn frag_imsak_key() -> Seq<u8> {
    seq![(',' as u8), ('"' as u8), ('i' as u8), ('m' as u8), ('s' as u8), ('a' as u8), ('k' as u8), ('"' as u8), (':' as u8)]
}

#[verifier::opaque]
pub open spec fn frag_fajr_key() -> Seq<u8> {
    seq![(',' as u8), ('"' as u8), ('f' as u8), ('a' as u8), ('j' as u8), ('r' as u8), ('"' as u8), (':' as u8)]
}

#[verifier::opaque]
pub open spec fn frag_syuruk_key() -> Seq<u8> {
    seq![(',' as u8), ('"' as u8), ('s' as u8), ('y' as u8), ('u' as u8), ('r' as u8), ('u' as u8), ('k' as u8), ('"' as u8), (':' as u8)]
}

#[verifier::opaque]
pub open spec fn frag_dhuhr_key() -> Seq<u8> {
    seq![(',' as u8), ('"' as u8), ('d' as u8), ('h' as u8), ('u' as u8), ('h' as u8), ('r' as u8), ('"' as u8), (':' as u8)]
}

#[verifier::opaque]
pub open spec fn frag_asr_key() -> Seq<u8> {
    seq![(',' as u8), ('"' as u8), ('a' as u8), ('s' as u8), ('r' as u8), ('"' as u8), (':' as u8)]
}

#[verifier::opaque]
pub open spec fn frag_maghrib_key() -> Seq<u8> {
    seq![(',' as u8), ('"' as u8), ('m' as u8), ('a' as u8), ('g' as u8), ('h' as u8), ('r' as u8), ('i' as u8), ('b' as u8), ('"' as u8), (':' as u8)]
}

#[verifier::opaque]
pub open spec fn frag_isha_key() -> Seq<u8> {
    seq![(',' as u8), ('"' as u8), ('i' as u8), ('s' as u8), ('h' as u8), ('a' as u8), ('"' as u8), (':' as u8)]
}

#[verifier::opaque]
pub open spec fn frag_rec_open() -> Seq<u8> {
    seq![('{' as u8), ('"' as u8), ('l' as u8), ('a' as u8), ('s' as u8), ('t' as u8), ('_' as u8), ('u' as u8), ('p' as u8), ('d' as u8), ('a' as u8), ('t' as u8), ('e' as u8), ('"' as u8), (':' as u8)]
}

#[verifier::opaque]
pub open spec fn frag_data_key() -> Seq<u8> {
    seq![(',' as u8), ('"' as u8), ('d' as u8), ('a' as u8), ('t' as u8), ('a' as u8), ('"' as u8), (':' as u8)]
}

fn push_frag_pt_open(out: &mut Vec<u8>)
    ensures
        final(out)@ == old(out)@ + frag_pt_open(),
{
    out.push('{' as u8);
    out.push('"' as u8);
    out.push('h' as u8);
    out.push('i' as u8);
    out.push('j' as u8);
    out.push('r' as u8);
    out.push('i' as u8);
    out.push('"' as u8);
    out.push(':' as u8);
    proof {
        reveal(frag_pt_open);
        assert(out@ =~= old(out)@ + frag_pt_open());
    }
}

fn push_frag_date_key(out: &mut Vec<u8>)
    ensures
        final(out)@ == old(out)@ + frag_date_key(),
{
    out.push(',' as u8);
    out.push('"' as u8);
    out.push('d' as u8);
    out.push('a' as u8);
    out.push('t' as u8);
    out.push('e' as u8);
    out.push('"' as u8);
    out.push(':' as u8);
    proof {
        reveal(frag_date_key);
        assert(out@ =~= old(out)@ + frag_date_key());
    }
}

fn push_frag_imsak_key(out: &mut Vec<u8>)
    ensures
        final(out)@ == old(out)@ + frag_imsak_key(),
{
    out.push(',' as u8);
    out.push('"' as u8);
    out.push('i' as u8);
    out.push('m' as u8);
    out.push('s' as u8);
    out.push('a' as u8);
    out.push('k' as u8);
    out.push('"' as u8);
    out.push(':' as u8);
    proof {
        reveal(frag_imsak_key);
        assert(out@ =~= old(out)@ + frag_imsak_key());
    }
}

fn push_frag_fajr_key(out: &mut Vec<u8>)
    ensures
        final(out)@ == old(out)@ + frag_fajr_key(),
{
    out.push(',' as u8);
    out.push('"' as u8);
    out.push('f' as u8);
    out.push('a' as u8);
    out.push('j' as u8);
    out.push('r' as u8);
    out.push('"' as u8);
    out.push(':' as u8);
    proof {
        reveal(frag_fajr_key);
        assert(out@ =~= old(out)@ + frag_fajr_key());
    }
}

fn push_frag_syuruk_key(out: &mut Vec<u8>)
    ensures
        final(out)@ == old(out)@ + frag_syuruk_key(),
{
    out.push(',' as u8);
    out.push('"' as u8);
    out.push('s' as u8);
    out.push('y' as u8);
    out.push('u' as u8);
    out.push('r' as u8);
    out.push('u' as u8);
    out.push('k' as u8);
    out.push('"' as u8);
    out.push(':' as u8);
    proof {
        reveal(frag_syuruk_key);
        assert(out@ =~= old(out)@ + frag_syuruk_key());
    }
}

fn push_frag_dhuhr_key(out: &mut Vec<u8>)
    ensures
        final(out)@ == old(out)@ + frag_dhuhr_key(),
{
    out.push(',' as u8);
    out.push('"' as u8);
    out.push('d' as u8);
    out.push('h' as u8);
    out.push('u' as u8);
    out.push('h' as u8);
    out.push('r' as u8);
    out.push('"' as u8);
    out.push(':' as u8);
    proof {
        reveal(frag_dhuhr_key);
        assert(out@ =~= old(out)@ + frag_dhuhr_key());
    }
}

fn push_frag_asr_key(out: &mut Vec<u8>)
    ensures
        final(out)@ == old(out)@ + frag_asr_key(),
{
    out.push(',' as u8);
    out.push('"' as u8);
    out.push('a' as u8);
    out.push('s' as u8);
    out.push('r' as u8);
    out.push('"' as u8);
    out.push(':' as u8);
    proof {
        reveal(frag_asr_key);
        assert(out@ =~= old(out)@ + frag_asr_key());
    }
}

fn push_frag_maghrib_key(out: &mut Vec<u8>)
    ensures
        final(out)@ == old(out)@ + frag_maghrib_key(),
{
    out.push(',' as u8);
    out.push('"' as u8);
    out.push('m' as u8);
    out.push('a' as u8);
    out.push('g' as u8);
    out.push('h' as u8);
    out.push('r' as u8);
    out.push('i' as u8);
    out.push('b' as u8);
    out.push('"' as u8);
    out.push(':' as u8);
    proof {
        reveal(frag_maghrib_key);
        assert(out@ =~= old(out)@ + frag_maghrib_key());
    }
}

fn push_frag_isha_key(out: &mut Vec<u8>)
    ensures
        final(out)@ == old(out)@ + frag_isha_key(),
{
    out.push(',' as u8);
    out.push('"' as u8);
    out.push('i' as u8);
    out.push('s' as u8);
    out.push('h' as u8);
    out.push('a' as u8);
    out.push('"' as u8);
    out.push(':' as u8);
    proof {
        reveal(frag_isha_key);
        assert(out@ =~= old(out)@ + frag_isha_key());
    }
}

fn push_frag_rec_open(out: &mut Vec<u8>)
    ensures
        final(out)@ == old(out)@ + frag_rec_open(),
{
    out.push('{' as u8);
    out.push('"' as u8);
    out.push('l' as u8);
    out.push('a' as u8);
    out.push('s' as u8);
    out.push('t' as u8);
    out.push('_' as u8);
    out.push('u' as u8);
    out.push('p' as u8);
    out.push('d' as u8);
    out.push('a' as u8);
    out.push('t' as u8);
    out.push('e' as u8);
    out.push('"' as u8);
    out.push(':' as u8);
    proof {
        reveal(frag_rec_open);
        assert(out@ =~= old(out)@ + frag_rec_open());
    }
}

fn push_frag_data_key(out: &mut Vec<u8>)
    ensures
        final(out)@ == old(out)@ + frag_data_key(),
{
    out.push(',' as u8);
    out.push('"' as u8);
    out.push('d' as u8);
    out.push('a' as u8);
    out.push('t' as u8);
    out.push('a' as u8);
    out.push('"' as u8);
    out.push(':' as u8);
    proof {
        reveal(frag_data_key);
        assert(out@ =~= old(out)@ + frag_data_key());
    }
}

// ---------- the writer ----------

/// A quoted, escaped string value.
pub open spec fn sstr(c: Seq<u8>) -> Seq<u8> {
    seq![('"' as u8)] + esc(c) + seq![('"' as u8)]
}

/// A quoted wire date value.
pub open spec fn wd_str(d: Date) -> Seq<u8> {
    seq![('"' as u8)] + wire_date_bytes(d) + seq![('"' as u8)]
}

/// A quoted time-of-day value.
pub open spec fn time_str(t: TimeOfDay) -> Seq<u8> {
    seq![('"' as u8)] + time_bytes(t) + seq![('"' as u8)]
}

/// A quoted full timestamp value.
pub open spec fn dt_str(dt: DateTime) -> Seq<u8> {
    seq![('"' as u8)] + iso_dt_bytes(dt) + seq![('"' as u8)]
}

/// A quoted ISO date, used as the per-day key.
pub open spec fn date_key_str(d: Date) -> Seq<u8> {
    seq![('"' as u8)] + iso_date_bytes(d) + seq![('"' as u8)]
}

/// A quoted zone code, used as the per-zone key.
pub open spec fn zone_str(z: Zones) -> Seq<u8> {
    seq![('"' as u8)] + zone_code(z) + seq![('"' as u8)]
}

/// One schedule entry as a JSON object, fields in wire order and wire
/// spelling: times carry only their `HH:MM:SS` component, the date its
/// `DD-Mon-YYYY` form with the English month.
#[verifier::opaque]
pub open spec fn ser_pt_a(p: PrayerTimeV) -> Seq<u8> {
    frag_pt_open() + sstr(p.hijri) + frag_date_key() + wd_str(p.date) + frag_imsak_key()
        + time_str(p.imsak.time)
}

#[verifier::opaque]
pub open spec fn ser_pt_b(p: PrayerTimeV) -> Seq<u8> {
    frag_fajr_key() + time_str(p.fajr.time) + frag_syuruk_key() + time_str(p.syuruk.time)
        + frag_dhuhr_key() + time_str(p.dhuhr.time)
}

#[verifier::opaque]
pub open spec fn ser_pt_c(p: PrayerTimeV) -> Seq<u8> {
    frag_asr_key() + time_str(p.asr.time) + frag_maghrib_key() + time_str(p.maghrib.time)
        + frag_isha_key() + time_str(p.isha.time) + seq![('}' as u8)]
}

#[verifier::opaque]
pub open spec fn ser_pt(p: PrayerTimeV) -> Seq<u8> {
    ser_pt_a(p) + ser_pt_b(p) + ser_pt_c(p)
}

/// One cached record: the refresh stamp and the entry.
#[verifier::opaque]
pub open spec fn ser_rec(r: CacheEntryV) -> Seq<u8> {
    frag_rec_open() + dt_str(r.last_update) + frag_data_key() + ser_pt(r.data) + seq![('}' as u8)]
}

/// One dated slot of a zone: the ISO date key, then the record.
#[verifier::opaque]
pub open spec fn ser_day(r: CacheEntryV) -> Seq<u8> {
    date_key_str(r.data.date) + seq![(':' as u8)] + ser_rec(r)
}

/// A zone's slots, comma separated.
#[verifier::opaque]
pub open spec fn ser_days(recs: Seq<CacheEntryV>) -> Seq<u8>
    decreases recs.len(),
{
    if recs.len() == 0 {
        Seq::empty()
    } else if recs.len() == 1 {
        ser_day(recs[0])
    } else {
        ser_day(recs[0]) + seq![(',' as u8)] + ser_days(recs.skip(1))
    }
}

/// One zone: its code as the key, its slots as an object.
#[verifier::opaque]
pub open spec fn ser_block(b: ZoneBlockV) -> Seq<u8> {
    zone_str(b.zone) + seq![(':' as u8), ('{' as u8)] + ser_days(b.recs) + seq![('}' as u8)]
}

/// The zone blocks, comma separated.
#[verifier::opaque]
pub open spec fn ser_blocks(rows: Seq<ZoneBlockV>) -> Seq<u8>
    decreases rows.len(),
{
    if rows.len() == 0 {
        Seq::empty()
    } else if rows.len() == 1 {
        ser_block(rows[0])
    } else {
        ser_block(rows[0]) + seq![(',' as u8)] + ser_blocks(rows.skip(1))
    }
}

/// The whole store as one JSON object.
#[verifier::opaque]
pub open spec fn ser_cache(rows: Seq<ZoneBlockV>) -> Seq<u8> {
    seq![('{' as u8)] + ser_blocks(rows) + seq![('}' as u8)]
}

fn push_quoted_wire_date(out: &mut Vec<u8>, d: Date)
    requires
        date_valid(d),
    ensures
        final(out)@ == old(out)@ + wd_str(d),
{
    out.push('"' as u8);
    push_wire_date(out, d);
    out.push('"' as u8);
    proof {
        assert(out@ =~= old(out)@ + wd_str(d));
    }
}

fn push_quoted_time(out: &mut Vec<u8>, t: TimeOfDay)
    requires
        t.hour < 24 && t.minute < 60 && t.second < 60,
    ensures
        final(out)@ == old(out)@ + time_str(t),
{
    out.push('"' as u8);
    push_time(out, t);
    out.push('"' as u8);
    proof {
        assert(out@ =~= old(out)@ + time_str(t));
    }
}

#[verifier::rlimit(100)]
fn push_pt(out: &mut Vec<u8>, p: &PrayerTime)
    requires
        pt_valid(p@),
    ensures
        final(out)@ == old(out)@ + ser_pt(p@),
{
    push_frag_pt_open(out);
    out.push('"' as u8);
    push_escaped(out, &p.hijri);
    push_frag_date_key(out);
    push_quoted_wire_date(out, p.date);
    push_frag_imsak_key(out);
    push_quoted_time(out, p.imsak.time);
    proof {
        reveal(ser_pt_a);
        assert(seq![('"' as u8)] + esc(p.hijri@) + seq![('"' as u8)] =~= sstr(p.hijri@));
        assert(out@ =~= old(out)@ + ser_pt_a(p@));
    }
    push_frag_fajr_key(out);
    push_quoted_time(out, p.fajr.time);
    push_frag_syuruk_key(out);
    push_quoted_time(out, p.syuruk.time);
    push_frag_dhuhr_key(out);
    push_quoted_time(out, p.dhuhr.time);
    proof {
        reveal(ser_pt_b);
        assert(out@ =~= old(out)@ + ser_pt_a(p@) + ser_pt_b(p@));
    }
    push_frag_asr_key(out);
    push_quoted_time(out, p.asr.time);
    push_frag_maghrib_key(out);
    push_quoted_time(out, p.maghrib.time);
    push_frag_isha_key(out);
    push_quoted_time(out, p.isha.time);
    out.push('}' as u8);
    proof {
        reveal(ser_pt_c);
        reveal(ser_pt);
        assert(out@ =~= old(out)@ + ser_pt_a(p@) + ser_pt_b(p@) + ser_pt_c(p@));
        assert(out@ =~= old(out)@ + ser_pt(p@));
    }
}

#[verifier::rlimit(100)]
fn push_rec(out: &mut Vec<u8>, r: &CacheEntry)
    requires
        rec_valid(r@),
    ensures
        final(out)@ == old(out)@ + ser_rec(r@),
{
    push_frag_rec_open(out);
    out.push('"' as u8);
    push_iso_dt(out, r.last_update);
    out.push('"' as u8);
    push_frag_data_key(out);
    push_pt(out, &r.data);
    out.push('}' as u8);
    proof {
        reveal(ser_rec);
        assert(out@ =~= old(out)@ + ser_rec(r@));
    }
}


proof fn lemma_assoc(a: Seq<u8>, b: Seq<u8>, c: Seq<u8>)
    ensures
        (a + b) + c == a + (b + c),
{
    assert((a + b) + c =~= a + (b + c));
}

fn push_day(out: &mut Vec<u8>, r: &CacheEntry)
    requires
        rec_valid(r@),
    ensures
        final(out)@ == old(out)@ + ser_day(r@),
{
    out.push('"' as u8);
    push_iso_date(out, r.data.date);
    out.push('"' as u8);
    out.push(':' as u8);
    proof {
        assert(out@ =~= old(out)@ + (date_key_str(r@.data.date) + seq![(':' as u8)]));
    }
    push_rec(out, r);
    proof {
        reveal(ser_day);
        lemma_assoc(old(out)@, date_key_str(r@.data.date) + seq![(':' as u8)], ser_rec(r@));
    }
}

#[verifier::rlimit(100)]
fn push_days_from(out: &mut Vec<u8>, recs: &Vec<CacheEntry>, k: usize)
    requires
        k <= recs@.len(),
        forall|i: int| 0 <= i < recs@.len() ==> rec_valid((#[trigger] recs@[i])@),
    ensures
        final(out)@ == old(out)@ + ser_days(recs@.skip(k as int).map_values(|r: CacheEntry| r@)),
    decreases recs@.len() - k,
{
    let ghost tail = recs@.skip(k as int).map_values(|r: CacheEntry| r@);
    if k == recs.len() {
        proof {
            reveal(ser_days);
            assert(tail =~= Seq::<CacheEntryV>::empty());
            assert(out@ =~= old(out)@ + ser_days(tail));
        }
        return ;
    }
    push_day(out, &recs[k]);
    proof {
        assert(tail[0] == recs@[k as int]@);
    }
    if k + 1 == recs.len() {
        proof {
            reveal(ser_days);
            assert(tail.len() == 1);
            assert(out@ =~= old(out)@ + ser_days(tail));
        }
        return ;
    }
    out.push(',' as u8);
    push_days_from(out, recs, k + 1);
    proof {
        reveal(ser_days);
        assert(recs@.skip(k as int + 1).map_values(|r: CacheEntry| r@) =~= tail.skip(1));
        assert(out@ =~= old(out)@ + ser_days(tail));
    }
}

#[verifier::rlimit(100)]
fn push_block(out: &mut Vec<u8>, b: &ZoneBlock)
    requires
        block_valid(b@),
    ensures
        final(out)@ == old(out)@ + ser_block(b@),
{
    out.push('"' as u8);
    let code = b.zone.code_bytes();
    push_bytes(out, &code);
    out.push('"' as u8);
    out.push(':' as u8);
    out.push('{' as u8);
    proof {
        assert(b@.recs =~= b.recs@.skip(0).map_values(|r: CacheEntry| r@));
        assert(forall|i: int| 0 <= i < b.recs@.len() ==> rec_valid((#[trigger] b.recs@[i])@)) by {
            assert(forall|i: int|
                0 <= i < b@.recs.len() ==> rec_valid(#[trigger] b@.recs[i]));
            assert(forall|i: int|
                0 <= i < b.recs@.len() ==> b@.recs[i] == (#[trigger] b.recs@[i])@);
        }
    }
    push_days_from(out, &b.recs, 0);
    out.push('}' as u8);
    proof {
        reveal(ser_block);
        assert(out@ =~= old(out)@ + ser_block(b@));
    }
}

#[verifier::rlimit(100)]
fn push_blocks_from(out: &mut Vec<u8>, rows: &Vec<ZoneBlock>, k: usize)
    requires
        k <= rows@.len(),
        forall|i: int| 0 <= i < rows@.len() ==> block_valid((#[trigger] rows@[i])@),
    ensures
        final(out)@ == old(out)@ + ser_blocks(rows@.skip(k as int).map_values(|b: ZoneBlock| b@)),
    decreases rows@.len() - k,
{
    let ghost tail = rows@.skip(k as int).map_values(|b: ZoneBlock| b@);
    if k == rows.len() {
        proof {
            reveal(ser_blocks);
            assert(tail =~= Seq::<ZoneBlockV>::empty());
            assert(out@ =~= old(out)@ + ser_blocks(tail));
        }
        return ;
    }
    push_block(out, &rows[k]);
    proof {
        assert(tail[0] == rows@[k as int]@);
    }
    if k + 1 == rows.len() {
        proof {
            reveal(ser_blocks);
            assert(tail.len() == 1);
            assert(out@ =~= old(out)@ + ser_blocks(tail));
        }
        return ;
    }
    out.push(',' as u8);
    push_blocks_from(out, rows, k + 1);
    proof {
        reveal(ser_blocks);
        assert(rows@.skip(k as int + 1).map_values(|b: ZoneBlock| b@) =~= tail.skip(1));
        assert(out@ =~= old(out)@ + ser_blocks(tail));
    }
}

impl Cache {
    /// Serializes the whole store into the bytes of the cache file, in the
    /// canonical form that `from_file_bytes` reads back.
    pub fn to_file_bytes(&self) -> (r: Vec<u8>)
        requires
            cache_valid(self@),
        ensures
            r@ == ser_cache(self@),
    {
        let mut out: Vec<u8> = Vec::new();
        out.push('{' as u8);
        proof {
            assert(self@ =~= self.rows@.skip(0).map_values(|b: ZoneBlock| b@));
            assert(forall|i: int|
                0 <= i < self.rows@.len() ==> block_valid((#[trigger] self.rows@[i])@)) by {
                assert(forall|i: int|
                    0 <= i < self@.len() ==> block_valid(#[trigger] self@[i]));
                assert(forall|i: int|
                    0 <= i < self.rows@.len() ==> self@[i] == (#[trigger] self.rows@[i])@);
            }
        }
        push_blocks_from(&mut out, &self.rows, 0);
        out.push('}' as u8);
        proof {
            reveal(ser_cache);
            assert(out@ =~= ser_cache(self@));
        }
        out
    }
}


// ---------- the reader: parse specifications ----------

/// Expects a fixed fragment at `i`; the position after it on success.
pub open spec fn expect(s: Seq<u8>, i: int, frag: Seq<u8>) -> Option<int> {
    if 0 <= i && i + frag.len() <= s.len() && s.subrange(i, i + frag.len() as int) == frag {
        Some(i + frag.len() as int)
    } else {
        None
    }
}

/// A quoted, escaped string value at `i`.
pub open spec fn ps_sstr(s: Seq<u8>, i: int) -> Option<(Seq<u8>, int)> {
    if 0 <= i && i < s.len() && s[i] == ('"' as u8) {
        ps_str(s, i + 1)
    } else {
        None
    }
}

/// A quoted wire date at `i`.
pub open spec fn ps_wd(s: Seq<u8>, i: int) -> Option<(Date, int)> {
    if 0 <= i && i + 13 <= s.len() && s[i] == ('"' as u8) && s[i + 12] == ('"' as u8) {
        match spec_parse_wire_date(s.subrange(i + 1, i + 12)) {
            Some(d) => Some((d, i + 13)),
            None => None,
        }
    } else {
        None
    }
}

/// A quoted time of day at `i`.
pub open spec fn ps_time(s: Seq<u8>, i: int) -> Option<(TimeOfDay, int)> {
    if 0 <= i && i + 10 <= s.len() && s[i] == ('"' as u8) && s[i + 9] == ('"' as u8) {
        match spec_parse_time(s.subrange(i + 1, i + 9)) {
            Some(t) => Some((t, i + 10)),
            None => None,
        }
    } else {
        None
    }
}

/// A quoted full timestamp at `i`.
pub open spec fn ps_dt(s: Seq<u8>, i: int) -> Option<(DateTime, int)> {
    if 0 <= i && i + 21 <= s.len() && s[i] == ('"' as u8) && s[i + 20] == ('"' as u8) {
        match spec_parse_iso_dt(s.subrange(i + 1, i + 20)) {
            Some(dt) => Some((dt, i + 21)),
            None => None,
        }
    } else {
        None
    }
}

/// A quoted ISO date key at `i`.
pub open spec fn ps_datekey(s: Seq<u8>, i: int) -> Option<(Date, int)> {
    if 0 <= i && i + 12 <= s.len() && s[i] == ('"' as u8) && s[i + 11] == ('"' as u8) {
        match spec_parse_iso_date(s.subrange(i + 1, i + 11)) {
            Some(d) => Some((d, i + 12)),
            None => None,
        }
    } else {
        None
    }
}

/// A quoted zone code at `i`.
pub open spec fn ps_zone(s: Seq<u8>, i: int) -> Option<(Zones, int)> {
    if 0 <= i && i + 7 <= s.len() && s[i] == ('"' as u8) && s[i + 6] == ('"' as u8) {
        match spec_parse_zone(s.subrange(i + 1, i + 6)) {
            Some(z) => Some((z, i + 7)),
            None => None,
        }
    } else {
        None
    }
}

/// One schedule entry object at `i`. Every time of day is re-anchored to
/// `today`, the calendar day of loading, as decoding from the wire does.
pub open spec fn ps_pt(s: Seq<u8>, i: int, today: Date) -> Option<(PrayerTimeV, int)> {
    match expect(s, i, frag_pt_open()) {
        None => None,
        Some(j0) => match ps_sstr(s, j0) {
        None => None,
        Some((hijri, j1)) => match expect(s, j1, frag_date_key()) {
        None => None,
        Some(j2) => match ps_wd(s, j2) {
        None => None,
        Some((d, j3)) => match expect(s, j3, frag_imsak_key()) {
        None => None,
        Some(j4) => match ps_time(s, j4) {
        None => None,
        Some((t1, j5)) => match expect(s, j5, frag_fajr_key()) {
        None => None,
        Some(j6) => match ps_time(s, j6) {
        None => None,
        Some((t2, j7)) => match expect(s, j7, frag_syuruk_key()) {
        None => None,
        Some(j8) => match ps_time(s, j8) {
        None => None,
        Some((t3, j9)) => match expect(s, j9, frag_dhuhr_key()) {
        None => None,
        Some(j10) => match ps_time(s, j10) {
        None => None,
        Some((t4, j11)) => match expect(s, j11, frag_asr_key()) {
        None => None,
        Some(j12) => match ps_time(s, j12) {
        None => None,
        Some((t5, j13)) => match expect(s, j13, frag_maghrib_key()) {
        None => None,
        Some(j14) => match ps_time(s, j14) {
        None => None,
        Some((t6, j15)) => match expect(s, j15, frag_isha_key()) {
        None => None,
        Some(j16) => match ps_time(s, j16) {
        None => None,
        Some((t7, j17)) => match expect(s, j17, seq![('}' as u8)]) {
        None => None,
        Some(j18) => Some((
        PrayerTimeV {
            hijri: hijri,
            date: d,
            imsak: DateTime { date: today, time: t1 },
            fajr: DateTime { date: today, time: t2 },
            syuruk: DateTime { date: today, time: t3 },
            dhuhr: DateTime { date: today, time: t4 },
            asr: DateTime { date: today, time: t5 },
            maghrib: DateTime { date: today, time: t6 },
            isha: DateTime { date: today, time: t7 },
        },
        j18,
    )),
    },
    },
    },
    },
    },
    },
    },
    },
    },
    },
    },
    },
    },
    },
    },
    },
    },
    },
    }
}

/// One cached record object at `i`.
pub open spec fn ps_rec(s: Seq<u8>, i: int, today: Date) -> Option<(CacheEntryV, int)> {
    match expect(s, i, frag_rec_open()) {
        None => None,
        Some(j0) => match ps_dt(s, j0) {
            None => None,
            Some((lu, j1)) => match expect(s, j1, frag_data_key()) {
                None => None,
                Some(j2) => match ps_pt(s, j2, today) {
                    None => None,
                    Some((p, j3)) => match expect(s, j3, seq![('}' as u8)]) {
                        None => None,
                        Some(j4) => Some((CacheEntryV { last_update: lu, data: p }, j4)),
                    },
                },
            },
        },
    }
}

/// One dated slot at `i`: the key must agree with the entry's own date.
pub open spec fn ps_day(s: Seq<u8>, i: int, today: Date) -> Option<(CacheEntryV, int)> {
    match ps_datekey(s, i) {
        None => None,
        Some((d, j0)) => match expect(s, j0, seq![(':' as u8)]) {
            None => None,
            Some(j1) => match ps_rec(s, j1, today) {
                None => None,
                Some((r, j2)) => if r.data.date == d {
                    Some((r, j2))
                } else {
                    None
                },
            },
        },
    }
}

/// A comma-separated run of dated slots starting at `i`.
pub open spec fn ps_days(s: Seq<u8>, i: int, today: Date) -> Option<(Seq<CacheEntryV>, int)>
    decreases s.len() - i,
    when 0 <= i
{
    match ps_day(s, i, today) {
        None => None,
        Some((r0, j)) => if j <= i || j > s.len() {
            None
        } else if j < s.len() && s[j] == (',' as u8) {
            match ps_days(s, j + 1, today) {
                Some((rest, k)) => Some((seq![r0] + rest, k)),
                None => None,
            }
        } else {
            Some((seq![r0], j))
        },
    }
}

/// One zone object at `i`.
pub open spec fn ps_block(s: Seq<u8>, i: int, today: Date) -> Option<(ZoneBlockV, int)> {
    match ps_zone(s, i) {
        None => None,
        Some((z, j0)) => match expect(s, j0, seq![(':' as u8), ('{' as u8)]) {
            None => None,
            Some(j1) => if j1 < s.len() && s[j1] == ('}' as u8) {
                Some((ZoneBlockV { zone: z, recs: Seq::empty() }, j1 + 1))
            } else {
                match ps_days(s, j1, today) {
                    None => None,
                    Some((recs, j2)) => match expect(s, j2, seq![('}' as u8)]) {
                        None => None,
                        Some(j3) => Some((ZoneBlockV { zone: z, recs: recs }, j3)),
                    },
                }
            },
        },
    }
}

/// A comma-separated run of zone objects starting at `i`.
pub open spec fn ps_blocks(s: Seq<u8>, i: int, today: Date) -> Option<(Seq<ZoneBlockV>, int)>
    decreases s.len() - i,
    when 0 <= i
{
    match ps_block(s, i, today) {
        None => None,
        Some((b0, j)) => if j <= i || j > s.len() {
            None
        } else if j < s.len() && s[j] == (',' as u8) {
            match ps_blocks(s, j + 1, today) {
                Some((rest, k)) => Some((seq![b0] + rest, k)),
                None => None,
            }
        } else {
            Some((seq![b0], j))
        },
    }
}

/// The whole cache file: one JSON object, consumed in full.
pub open spec fn spec_parse_cache(s: Seq<u8>, today: Date) -> Option<Seq<ZoneBlockV>> {
    match expect(s, 0, seq![('{' as u8)]) {
        None => None,
        Some(j0) => if j0 < s.len() && s[j0] == ('}' as u8) {
            if j0 + 1 == s.len() {
                Some(Seq::empty())
            } else {
                None
            }
        } else {
            match ps_blocks(s, j0, today) {
                None => None,
                Some((rows, j1)) => match expect(s, j1, seq![('}' as u8)]) {
                    None => None,
                    Some(j2) => if j2 == s.len() {
                        Some(rows)
                    } else {
                        None
                    },
                },
            }
        },
    }
}


// ---------- the reader: executable parsers ----------

fn frag_pt_open_vec() -> (r: Vec<u8>)
    ensures
        r@ == frag_pt_open(),
{
    let mut v: Vec<u8> = Vec::new();
    push_frag_pt_open(&mut v);
    proof {
        assert(v@ =~= frag_pt_open());
    }
    v
}

fn frag_date_key_vec() -> (r: Vec<u8>)
    ensures
        r@ == frag_date_key(),
{
    let mut v: Vec<u8> = Vec::new();
    push_frag_date_key(&mut v);
    proof {
        assert(v@ =~= frag_date_key());
    }
    v
}

fn frag_imsak_key_vec() -> (r: Vec<u8>)
    ensures
        r@ == frag_imsak_key(),
{
    let mut v: Vec<u8> = Vec::new();
    push_frag_imsak_key(&mut v);
    proof {
        assert(v@ =~= frag_imsak_key());
    }
    v
}

fn frag_fajr_key_vec() -> (r: Vec<u8>)
    ensures
        r@ == frag_fajr_key(),
{
    let mut v: Vec<u8> = Vec::new();
    push_frag_fajr_key(&mut v);
    proof {
        assert(v@ =~= frag_fajr_key());
    }
    v
}

fn frag_syuruk_key_vec() -> (r: Vec<u8>)
    ensures
        r@ == frag_syuruk_key(),
{
    let mut v: Vec<u8> = Vec::new();
    push_frag_syuruk_key(&mut v);
    proof {
        assert(v@ =~= frag_syuruk_key());
    }
    v
}

fn frag_dhuhr_key_vec() -> (r: Vec<u8>)
    ensures
        r@ == frag_dhuhr_key(),
{
    let mut v: Vec<u8> = Vec::new();
    push_frag_dhuhr_key(&mut v);
    proof {
        assert(v@ =~= frag_dhuhr_key());
    }
    v
}

fn frag_asr_key_vec() -> (r: Vec<u8>)
    ensures
        r@ == frag_asr_key(),
{
    let mut v: Vec<u8> = Vec::new();
    push_frag_asr_key(&mut v);
    proof {
        assert(v@ =~= frag_asr_key());
    }
    v
}

fn frag_maghrib_key_vec() -> (r: Vec<u8>)
    ensures
        r@ == frag_maghrib_key(),
{
    let mut v: Vec<u8> = Vec::new();
    push_frag_maghrib_key(&mut v);
    proof {
        assert(v@ =~= frag_maghrib_key());
    }
    v
}

fn frag_isha_key_vec() -> (r: Vec<u8>)
    ensures
        r@ == frag_isha_key(),
{
    let mut v: Vec<u8> = Vec::new();
    push_frag_isha_key(&mut v);
    proof {
        assert(v@ =~= frag_isha_key());
    }
    v
}

fn frag_rec_open_vec() -> (r: Vec<u8>)
    ensures
        r@ == frag_rec_open(),
{
    let mut v: Vec<u8> = Vec::new();
    push_frag_rec_open(&mut v);
    proof {
        assert(v@ =~= frag_rec_open());
    }
    v
}

fn frag_data_key_vec() -> (r: Vec<u8>)
    ensures
        r@ == frag_data_key(),
{
    let mut v: Vec<u8> = Vec::new();
    push_frag_data_key(&mut v);
    proof {
        assert(v@ =~= frag_data_key());
    }
    v
}


fn expect_x(s: &Vec<u8>, i: usize, frag: &Vec<u8>) -> (r: Option<usize>)
    ensures
        match r {
            Some(j) => expect(s@, i as int, frag@) == Some(j as int),
            None => expect(s@, i as int, frag@) is None,
        },
{
    let n = s.len();
    let m = frag.len();
    if i > n || n - i < m {
        return None;
    }
    let mut k: usize = 0;
    while k < m
        invariant
            k <= m,
            i + m <= n,
            n == s@.len(),
            m == frag@.len(),
            forall|t: int| 0 <= t < k ==> s@[i + t] == frag@[t],
        decreases m - k,
    {
        if s[i + k] != frag[k] {
            proof {
                assert(s@.subrange(i as int, i as int + m as int)[k as int] != frag@[k as int]);
            }
            return None;
        }
        k = k + 1;
    }
    proof {
        assert(s@.subrange(i as int, i as int + m as int) =~= frag@);
    }
    Some(i + m)
}

fn expect_byte(s: &Vec<u8>, i: usize, b: u8) -> (r: Option<usize>)
    ensures
        match r {
            Some(j) => expect(s@, i as int, seq![b]) == Some(j as int),
            None => expect(s@, i as int, seq![b]) is None,
        },
{
    if i < s.len() && s[i] == b {
        proof {
            assert(s@.subrange(i as int, i as int + 1) =~= seq![b]);
        }
        Some(i + 1)
    } else {
        proof {
            if 0 <= i as int && i as int + 1 <= s@.len() {
                assert(s@.subrange(i as int, i as int + 1)[0] == s@[i as int]);
            }
        }
        None
    }
}

fn scan_sstr(s: &Vec<u8>, i: usize) -> (r: Option<(Vec<u8>, usize)>)
    ensures
        match r {
            Some(cj) => ps_sstr(s@, i as int) == Some((cj.0@, cj.1 as int)),
            None => ps_sstr(s@, i as int) is None,
        },
{
    if i < s.len() && s[i] == ('"' as u8) {
        scan_string(s, i + 1)
    } else {
        None
    }
}

fn parse_quoted_wd(s: &Vec<u8>, i: usize) -> (r: Option<(Date, usize)>)
    ensures
        match r {
            Some(dj) => ps_wd(s@, i as int) == Some((dj.0, dj.1 as int)),
            None => ps_wd(s@, i as int) is None,
        },
{
    if i > s.len() || s.len() - i < 13 {
        return None;
    }
    if s[i] != ('"' as u8) || s[i + 12] != ('"' as u8) {
        return None;
    }
    match read_wire_date(s, i + 1) {
        Some(d) => Some((d, i + 13)),
        None => None,
    }
}

fn parse_quoted_time(s: &Vec<u8>, i: usize) -> (r: Option<(TimeOfDay, usize)>)
    ensures
        match r {
            Some(tj) => ps_time(s@, i as int) == Some((tj.0, tj.1 as int)),
            None => ps_time(s@, i as int) is None,
        },
{
    if i > s.len() || s.len() - i < 10 {
        return None;
    }
    if s[i] != ('"' as u8) || s[i + 9] != ('"' as u8) {
        return None;
    }
    match read_time(s, i + 1) {
        Some(t) => Some((t, i + 10)),
        None => None,
    }
}

fn parse_quoted_dt(s: &Vec<u8>, i: usize) -> (r: Option<(DateTime, usize)>)
    ensures
        match r {
            Some(dj) => ps_dt(s@, i as int) == Some((dj.0, dj.1 as int)),
            None => ps_dt(s@, i as int) is None,
        },
{
    if i > s.len() || s.len() - i < 21 {
        return None;
    }
    if s[i] != ('"' as u8) || s[i + 20] != ('"' as u8) {
        return None;
    }
    match read_iso_dt(s, i + 1) {
        Some(dt) => Some((dt, i + 21)),
        None => None,
    }
}

fn parse_quoted_datekey(s: &Vec<u8>, i: usize) -> (r: Option<(Date, usize)>)
    ensures
        match r {
            Some(dj) => ps_datekey(s@, i as int) == Some((dj.0, dj.1 as int)),
            None => ps_datekey(s@, i as int) is None,
        },
{
    if i > s.len() || s.len() - i < 12 {
        return None;
    }
    if s[i] != ('"' as u8) || s[i + 11] != ('"' as u8) {
        return None;
    }
    match read_iso_date(s, i + 1) {
        Some(d) => Some((d, i + 12)),
        None => None,
    }
}

fn parse_quoted_zone(s: &Vec<u8>, i: usize) -> (r: Option<(Zones, usize)>)
    ensures
        match r {
            Some(zj) => ps_zone(s@, i as int) == Some((zj.0, zj.1 as int)),
            None => ps_zone(s@, i as int) is None,
        },
{
    if i > s.len() || s.len() - i < 7 {
        return None;
    }
    if s[i] != ('"' as u8) || s[i + 6] != ('"' as u8) {
        return None;
    }
    let ghost sub = s@.subrange(i as int + 1, i as int + 6);
    proof {
        assert(sub.len() == 5);
        assert(sub[0] == s@[i as int + 1]);
        assert(sub[1] == s@[i as int + 2]);
        assert(sub[2] == s@[i as int + 3]);
        assert(sub[3] == s@[i as int + 4]);
        assert(sub[4] == s@[i as int + 5]);
    }
    match parse_zone5(s[i + 1], s[i + 2], s[i + 3], s[i + 4], s[i + 5]) {
        Some(z) => Some((z, i + 7)),
        None => None,
    }
}

#[verifier::rlimit(100)]
fn parse_pt(s: &Vec<u8>, i: usize, today: Date) -> (r: Option<(PrayerTime, usize)>)
    ensures
        match r {
            Some(pj) => ps_pt(s@, i as int, today) == Some((pj.0@, pj.1 as int)),
            None => ps_pt(s@, i as int, today) is None,
        },
{
    let j0 = match expect_x(s, i, &frag_pt_open_vec()) {
        Some(j) => j,
        None => {
            return None;
        },
    };
    let (hijri, j1) = match scan_sstr(s, j0) {
        Some(cj) => cj,
        None => {
            return None;
        },
    };
    let j2 = match expect_x(s, j1, &frag_date_key_vec()) {
        Some(j) => j,
        None => {
            return None;
        },
    };
    let (date, j3) = match parse_quoted_wd(s, j2) {
        Some(dj) => dj,
        None => {
            return None;
        },
    };
    let j4 = match expect_x(s, j3, &frag_imsak_key_vec()) {
        Some(j) => j,
        None => {
            return None;
        },
    };
    let (t1, j5) = match parse_quoted_time(s, j4) {
        Some(tj) => tj,
        None => {
            return None;
        },
    };
    let j6 = match expect_x(s, j5, &frag_fajr_key_vec()) {
        Some(j) => j,
        None => {
            return None;
        },
    };
    let (t2, j7) = match parse_quoted_time(s, j6) {
        Some(tj) => tj,
        None => {
            return None;
        },
    };
    let j8 = match expect_x(s, j7, &frag_syuruk_key_vec()) {
        Some(j) => j,
        None => {
            return None;
        },
    };
    let (t3, j9) = match parse_quoted_time(s, j8) {
        Some(tj) => tj,
        None => {
            return None;
        },
    };
    let j10 = match expect_x(s, j9, &frag_dhuhr_key_vec()) {
        Some(j) => j,
        None => {
            return None;
        },
    };
    let (t4, j11) = match parse_quoted_time(s, j10) {
        Some(tj) => tj,
        None => {
            return None;
        },
    };
    let j12 = match expect_x(s, j11, &frag_asr_key_vec()) {
        Some(j) => j,
        None => {
            return None;
        },
    };
    let (t5, j13) = match parse_quoted_time(s, j12) {
        Some(tj) => tj,
        None => {
            return None;
        },
    };
    let j14 = match expect_x(s, j13, &frag_maghrib_key_vec()) {
        Some(j) => j,
        None => {
            return None;
        },
    };
    let (t6, j15) = match parse_quoted_time(s, j14) {
        Some(tj) => tj,
        None => {
            return None;
        },
    };
    let j16 = match expect_x(s, j15, &frag_isha_key_vec()) {
        Some(j) => j,
        None => {
            return None;
        },
    };
    let (t7, j17) = match parse_quoted_time(s, j16) {
        Some(tj) => tj,
        None => {
            return None;
        },
    };
    let j18 = match expect_byte(s, j17, '}' as u8) {
        Some(j) => j,
        None => {
            return None;
        },
    };
    let p = PrayerTime {
        hijri,
        date,
        imsak: DateTime { date: today, time: t1 },
        fajr: DateTime { date: today, time: t2 },
        syuruk: DateTime { date: today, time: t3 },
        dhuhr: DateTime { date: today, time: t4 },
        asr: DateTime { date: today, time: t5 },
        maghrib: DateTime { date: today, time: t6 },
        isha: DateTime { date: today, time: t7 },
    };
    Some((p, j18))
}

fn parse_rec(s: &Vec<u8>, i: usize, today: Date) -> (r: Option<(CacheEntry, usize)>)
    ensures
        match r {
            Some(rj) => ps_rec(s@, i as int, today) == Some((rj.0@, rj.1 as int)),
            None => ps_rec(s@, i as int, today) is None,
        },
{
    let j0 = match expect_x(s, i, &frag_rec_open_vec()) {
        Some(j) => j,
        None => {
            return None;
        },
    };
    let (lu, j1) = match parse_quoted_dt(s, j0) {
        Some(dj) => dj,
        None => {
            return None;
        },
    };
    let j2 = match expect_x(s, j1, &frag_data_key_vec()) {
        Some(j) => j,
        None => {
            return None;
        },
    };
    let (p, j3) = match parse_pt(s, j2, today) {
        Some(pj) => pj,
        None => {
            return None;
        },
    };
    let j4 = match expect_byte(s, j3, '}' as u8) {
        Some(j) => j,
        None => {
            return None;
        },
    };
    Some((CacheEntry { last_update: lu, data: p }, j4))
}

fn parse_day(s: &Vec<u8>, i: usize, today: Date) -> (r: Option<(CacheEntry, usize)>)
    ensures
        match r {
            Some(rj) => ps_day(s@, i as int, today) == Some((rj.0@, rj.1 as int)),
            None => ps_day(s@, i as int, today) is None,
        },
{
    let (d, j0) = match parse_quoted_datekey(s, i) {
        Some(dj) => dj,
        None => {
            return None;
        },
    };
    let j1 = match expect_byte(s, j0, ':' as u8) {
        Some(j) => j,
        None => {
            return None;
        },
    };
    let (rec, j2) = match parse_rec(s, j1, today) {
        Some(rj) => rj,
        None => {
            return None;
        },
    };
    if rec.data.date == d {
        Some((rec, j2))
    } else {
        None
    }
}

fn parse_days(s: &Vec<u8>, i: usize, today: Date) -> (r: Option<(Vec<CacheEntry>, usize)>)
    ensures
        match r {
            Some(rj) => ps_days(s@, i as int, today) == Some((
                rj.0@.map_values(|e: CacheEntry| e@),
                rj.1 as int,
            )),
            None => ps_days(s@, i as int, today) is None,
        },
    decreases s@.len() - i,
{
    let (r0, j) = match parse_day(s, i, today) {
        Some(rj) => rj,
        None => {
            return None;
        },
    };
    if j <= i || j > s.len() {
        return None;
    }
    if j < s.len() && s[j] == (',' as u8) {
        match parse_days(s, j + 1, today) {
            Some((mut rest, k)) => {
                let ghost restv = rest@;
                rest.insert(0, r0);
                proof {
                    let tail = ps_days(s@, j as int + 1, today)->Some_0.0;
                    assert(rest@.map_values(|e: CacheEntry| e@) =~= seq![rest@[0]@] + restv
                        .map_values(|e: CacheEntry| e@));
                }
                Some((rest, k))
            },
            None => None,
        }
    } else {
        let mut one: Vec<CacheEntry> = Vec::new();
        let ghost r0v = r0@;
        one.push(r0);
        proof {
            assert(one@.map_values(|e: CacheEntry| e@) =~= seq![r0v]);
        }
        Some((one, j))
    }
}

fn parse_block(s: &Vec<u8>, i: usize, today: Date) -> (r: Option<(ZoneBlock, usize)>)
    ensures
        match r {
            Some(bj) => ps_block(s@, i as int, today) == Some((bj.0@, bj.1 as int)),
            None => ps_block(s@, i as int, today) is None,
        },
{
    let (z, j0) = match parse_quoted_zone(s, i) {
        Some(zj) => zj,
        None => {
            return None;
        },
    };
    let mut colon_brace: Vec<u8> = Vec::new();
    colon_brace.push(':' as u8);
    colon_brace.push('{' as u8);
    proof {
        assert(colon_brace@ =~= seq![(':' as u8), ('{' as u8)]);
    }
    let j2 = match expect_x(s, j0, &colon_brace) {
        Some(j) => j,
        None => {
            return None;
        },
    };
    if j2 < s.len() && s[j2] == ('}' as u8) {
        let b = ZoneBlock { zone: z, recs: Vec::new() };
        proof {
            assert(b@.recs =~= Seq::<CacheEntryV>::empty());
        }
        return Some((b, j2 + 1));
    }
    let (recs, j3) = match parse_days(s, j2, today) {
        Some(rj) => rj,
        None => {
            return None;
        },
    };
    let j4 = match expect_byte(s, j3, '}' as u8) {
        Some(j) => j,
        None => {
            return None;
        },
    };
    Some((ZoneBlock { zone: z, recs }, j4))
}

fn parse_blocks(s: &Vec<u8>, i: usize, today: Date) -> (r: Option<(Vec<ZoneBlock>, usize)>)
    ensures
        match r {
            Some(rj) => ps_blocks(s@, i as int, today) == Some((
                rj.0@.map_values(|b: ZoneBlock| b@),
                rj.1 as int,
            )),
            None => ps_blocks(s@, i as int, today) is None,
        },
    decreases s@.len() - i,
{
    let (b0, j) = match parse_block(s, i, today) {
        Some(bj) => bj,
        None => {
            return None;
        },
    };
    if j <= i || j > s.len() {
        return None;
    }
    if j < s.len() && s[j] == (',' as u8) {
        match parse_blocks(s, j + 1, today) {
            Some((mut rest, k)) => {
                let ghost restv = rest@;
                rest.insert(0, b0);
                proof {
                    assert(rest@.map_values(|b: ZoneBlock| b@) =~= seq![rest@[0]@] + restv
                        .map_values(|b: ZoneBlock| b@));
                }
                Some((rest, k))
            },
            None => None,
        }
    } else {
        let mut one: Vec<ZoneBlock> = Vec::new();
        let ghost b0v = b0@;
        one.push(b0);
        proof {
            assert(one@.map_values(|b: ZoneBlock| b@) =~= seq![b0v]);
        }
        Some((one, j))
    }
}

fn parse_cache_bytes(s: &Vec<u8>, today: Date) -> (r: Option<Vec<ZoneBlock>>)
    ensures
        match r {
            Some(rows) => spec_parse_cache(s@, today) == Some(
                rows@.map_values(|b: ZoneBlock| b@),
            ),
            None => spec_parse_cache(s@, today) is None,
        },
{
    let j0 = match expect_byte(s, 0, '{' as u8) {
        Some(j) => j,
        None => {
            return None;
        },
    };
    if j0 < s.len() && s[j0] == ('}' as u8) {
        if j0 + 1 == s.len() {
            let empty: Vec<ZoneBlock> = Vec::new();
            proof {
                assert(empty@.map_values(|b: ZoneBlock| b@) =~= Seq::<ZoneBlockV>::empty());
            }
            return Some(empty);
        } else {
            return None;
        }
    }
    let (rows, j1) = match parse_blocks(s, j0, today) {
        Some(rj) => rj,
        None => {
            return None;
        },
    };
    let j2 = match expect_byte(s, j1, '}' as u8) {
        Some(j) => j,
        None => {
            return None;
        },
    };
    if j2 == s.len() {
        Some(rows)
    } else {
        None
    }
}


// ---------- reading back what was written ----------

/// A piece of a known region of `s` is itself a known region of `s`.
proof fn lemma_chunk(s: Seq<u8>, i: int, whole: Seq<u8>, off: int, part: Seq<u8>)
    requires
        0 <= i,
        i + whole.len() <= s.len(),
        s.subrange(i, i + whole.len() as int) == whole,
        0 <= off,
        off + part.len() <= whole.len(),
        whole.subrange(off, off + part.len() as int) == part,
    ensures
        s.subrange(i + off, i + off + part.len() as int) == part,
{
    assert(s.subrange(i + off, i + off + part.len() as int) =~= part) by {
        assert forall|k: int| 0 <= k < part.len() implies #[trigger] (s.subrange(
            i + off,
            i + off + part.len() as int,
        )[k]) == part[k] by {
            assert(s[i + off + k] == s.subrange(i, i + whole.len() as int)[off + k]);
            assert(part[k] == whole.subrange(off, off + part.len() as int)[k]);
        }
    }
}

proof fn lemma_rt_sstr(s: Seq<u8>, c: Seq<u8>, i: int)
    requires
        0 <= i,
        i + sstr(c).len() <= s.len(),
        s.subrange(i, i + sstr(c).len() as int) == sstr(c),
    ensures
        ps_sstr(s, i) == Some((c, i + sstr(c).len() as int)),
{
    let w = sstr(c);
    assert(s[i] == w[0]);
    assert(w.subrange(1, w.len() as int) =~= esc(c) + seq![('"' as u8)]);
    lemma_chunk(s, i, w, 1, esc(c) + seq![('"' as u8)]);
    lemma_ps_str_rt(s, c, i + 1);
}

proof fn lemma_rt_wd(s: Seq<u8>, d: Date, i: int)
    requires
        date_valid(d),
        0 <= i,
        i + 13 <= s.len(),
        s.subrange(i, i + 13) == wd_str(d),
    ensures
        ps_wd(s, i) == Some((d, i + 13)),
{
    let w = wd_str(d);
    lemma_wire_date_rt(d);
    assert(w.len() == 13);
    assert(s[i] == w[0]);
    assert(s[i + 12] == w[12]);
    assert(w.subrange(1, 12) =~= wire_date_bytes(d));
    lemma_chunk(s, i, w, 1, wire_date_bytes(d));
}

proof fn lemma_rt_time(s: Seq<u8>, t: TimeOfDay, i: int)
    requires
        t.hour < 24 && t.minute < 60 && t.second < 60,
        0 <= i,
        i + 10 <= s.len(),
        s.subrange(i, i + 10) == time_str(t),
    ensures
        ps_time(s, i) == Some((t, i + 10)),
{
    let w = time_str(t);
    lemma_time_rt(t);
    assert(w.len() == 10);
    assert(s[i] == w[0]);
    assert(s[i + 9] == w[9]);
    assert(w.subrange(1, 9) =~= time_bytes(t));
    lemma_chunk(s, i, w, 1, time_bytes(t));
}

proof fn lemma_rt_dt(s: Seq<u8>, dt: DateTime, i: int)
    requires
        datetime_valid(dt),
        0 <= i,
        i + 21 <= s.len(),
        s.subrange(i, i + 21) == dt_str(dt),
    ensures
        ps_dt(s, i) == Some((dt, i + 21)),
{
    let w = dt_str(dt);
    lemma_iso_dt_rt(dt);
    assert(w.len() == 21);
    assert(s[i] == w[0]);
    assert(s[i + 20] == w[20]);
    assert(w.subrange(1, 20) =~= iso_dt_bytes(dt));
    lemma_chunk(s, i, w, 1, iso_dt_bytes(dt));
}

proof fn lemma_rt_datekey(s: Seq<u8>, d: Date, i: int)
    requires
        date_valid(d),
        0 <= i,
        i + 12 <= s.len(),
        s.subrange(i, i + 12) == date_key_str(d),
    ensures
        ps_datekey(s, i) == Some((d, i + 12)),
{
    let w = date_key_str(d);
    lemma_iso_date_rt(d);
    assert(w.len() == 12);
    assert(s[i] == w[0]);
    assert(s[i + 11] == w[11]);
    assert(w.subrange(1, 11) =~= iso_date_bytes(d));
    lemma_chunk(s, i, w, 1, iso_date_bytes(d));
}

proof fn lemma_rt_zone(s: Seq<u8>, z: Zones, i: int)
    requires
        0 <= i,
        i + 7 <= s.len(),
        s.subrange(i, i + 7) == zone_str(z),
    ensures
        ps_zone(s, i) == Some((z, i + 7)),
{
    let w = zone_str(z);
    lemma_zone_code_rt(z);
    assert(w.len() == 7);
    assert(s[i] == w[0]);
    assert(s[i + 6] == w[6]);
    assert(w.subrange(1, 6) =~= zone_code(z));
    lemma_chunk(s, i, w, 1, zone_code(z));
}

// ---------- rebinding on load ----------

/// What loading does to an entry's timestamps: each keeps its time of day
/// but is re-anchored to the calendar day of loading, exactly as decoding
/// the same wire strings afresh would do.
pub open spec fn rebind_pt(p: PrayerTimeV, today: Date) -> PrayerTimeV {
    PrayerTimeV {
        hijri: p.hijri,
        date: p.date,
        imsak: DateTime { date: today, time: p.imsak.time },
        fajr: DateTime { date: today, time: p.fajr.time },
        syuruk: DateTime { date: today, time: p.syuruk.time },
        dhuhr: DateTime { date: today, time: p.dhuhr.time },
        asr: DateTime { date: today, time: p.asr.time },
        maghrib: DateTime { date: today, time: p.maghrib.time },
        isha: DateTime { date: today, time: p.isha.time },
    }
}

pub open spec fn rebind_rec(r: CacheEntryV, today: Date) -> CacheEntryV {
    CacheEntryV { last_update: r.last_update, data: rebind_pt(r.data, today) }
}

pub open spec fn rebind_recs(rs: Seq<CacheEntryV>, today: Date) -> Seq<CacheEntryV> {
    rs.map_values(|r: CacheEntryV| rebind_rec(r, today))
}

pub open spec fn rebind_rows(rows: Seq<ZoneBlockV>, today: Date) -> Seq<ZoneBlockV> {
    rows.map_values(|b: ZoneBlockV| ZoneBlockV { zone: b.zone, recs: rebind_recs(b.recs, today) })
}

// ---------- what a successful parse guarantees ----------

proof fn lemma_ps_pt_valid(s: Seq<u8>, i: int, today: Date)
    requires
        date_valid(today),
        ps_pt(s, i, today) is Some,
    ensures
        pt_valid(ps_pt(s, i, today)->Some_0.0),
{
}

proof fn lemma_ps_rec_valid(s: Seq<u8>, i: int, today: Date)
    requires
        date_valid(today),
        ps_rec(s, i, today) is Some,
    ensures
        rec_valid(ps_rec(s, i, today)->Some_0.0),
{
    let j0 = expect(s, i, frag_rec_open())->Some_0;
    let j2 = expect(s, ps_dt(s, j0)->Some_0.1, frag_data_key())->Some_0;
    lemma_ps_pt_valid(s, j2, today);
}

proof fn lemma_ps_day_valid(s: Seq<u8>, i: int, today: Date)
    requires
        date_valid(today),
        ps_day(s, i, today) is Some,
    ensures
        rec_valid(ps_day(s, i, today)->Some_0.0),
{
    let j0 = ps_datekey(s, i)->Some_0.1;
    let j1 = expect(s, j0, seq![(':' as u8)])->Some_0;
    lemma_ps_rec_valid(s, j1, today);
}

proof fn lemma_ps_days_valid(s: Seq<u8>, i: int, today: Date)
    requires
        0 <= i,
        date_valid(today),
        ps_days(s, i, today) is Some,
    ensures
        forall|k: int|
            0 <= k < ps_days(s, i, today)->Some_0.0.len() ==> rec_valid(
                #[trigger] ps_days(s, i, today)->Some_0.0[k],
            ),
    decreases s.len() - i,
{
    lemma_ps_day_valid(s, i, today);
    let (r0, j) = ps_day(s, i, today)->Some_0;
    if j <= i || j > s.len() {
    } else if j < s.len() && s[j] == (',' as u8) {
        lemma_ps_days_valid(s, j + 1, today);
        let rest = ps_days(s, j + 1, today)->Some_0.0;
        let whole = ps_days(s, i, today)->Some_0.0;
        assert forall|k: int| 0 <= k < whole.len() implies rec_valid(whole[k]) by {
            if k == 0 {
                assert(whole[k] == r0);
            } else {
                assert(whole[k] == rest[k - 1]);
            }
        }
    } else {
        let whole = ps_days(s, i, today)->Some_0.0;
        assert(whole[0] == r0);
    }
}

proof fn lemma_ps_block_valid(s: Seq<u8>, i: int, today: Date)
    requires
        date_valid(today),
        ps_block(s, i, today) is Some,
    ensures
        block_valid(ps_block(s, i, today)->Some_0.0),
{
    let j0 = ps_zone(s, i)->Some_0.1;
    let j1 = expect(s, j0, seq![(':' as u8), ('{' as u8)])->Some_0;
    if j1 < s.len() && s[j1] == ('}' as u8) {
    } else {
        lemma_ps_days_valid(s, j1, today);
    }
}

proof fn lemma_ps_blocks_valid(s: Seq<u8>, i: int, today: Date)
    requires
        0 <= i,
        date_valid(today),
        ps_blocks(s, i, today) is Some,
    ensures
        forall|k: int|
            0 <= k < ps_blocks(s, i, today)->Some_0.0.len() ==> block_valid(
                #[trigger] ps_blocks(s, i, today)->Some_0.0[k],
            ),
    decreases s.len() - i,
{
    lemma_ps_block_valid(s, i, today);
    let (b0, j) = ps_block(s, i, today)->Some_0;
    if j <= i || j > s.len() {
    } else if j < s.len() && s[j] == (',' as u8) {
        lemma_ps_blocks_valid(s, j + 1, today);
        let rest = ps_blocks(s, j + 1, today)->Some_0.0;
        let whole = ps_blocks(s, i, today)->Some_0.0;
        assert forall|k: int| 0 <= k < whole.len() implies block_valid(whole[k]) by {
            if k == 0 {
                assert(whole[k] == b0);
            } else {
                assert(whole[k] == rest[k - 1]);
            }
        }
    } else {
        let whole = ps_blocks(s, i, today)->Some_0.0;
        assert(whole[0] == b0);
    }
}

/// Whatever the file held, a successful parse yields only well-formed
/// calendar values.
pub proof fn lemma_parse_cache_valid(s: Seq<u8>, today: Date)
    requires
        date_valid(today),
        spec_parse_cache(s, today) is Some,
    ensures
        cache_valid(spec_parse_cache(s, today)->Some_0),
{
    let j0 = expect(s, 0, seq![('{' as u8)])->Some_0;
    if j0 < s.len() && s[j0] == ('}' as u8) {
    } else {
        lemma_ps_blocks_valid(s, j0, today);
    }
}


// ---------- the round trip: parse of what was written ----------

#[verifier::rlimit(100)]
#[verifier::spinoff_prover]
proof fn lemma_rt_pt(s: Seq<u8>, p: PrayerTimeV, i: int, today: Date)
    requires
        pt_valid(p),
        0 <= i,
        i + ser_pt(p).len() <= s.len(),
        s.subrange(i, i + ser_pt(p).len() as int) == ser_pt(p),
    ensures
        ps_pt(s, i, today) == Some((rebind_pt(p, today), i + ser_pt(p).len() as int)),
{
    reveal(ser_pt);
    reveal(ser_pt_a);
    reveal(ser_pt_b);
    reveal(ser_pt_c);
    let w = ser_pt(p);
    let a = ser_pt_a(p);
    let bb = ser_pt_b(p);
    let cc = ser_pt_c(p);
    lemma_wire_date_rt(p.date);
    lemma_time_rt(p.imsak.time);
    lemma_time_rt(p.fajr.time);
    lemma_time_rt(p.syuruk.time);
    lemma_time_rt(p.dhuhr.time);
    lemma_time_rt(p.asr.time);
    lemma_time_rt(p.maghrib.time);
    lemma_time_rt(p.isha.time);
    assert(w.subrange(0, a.len() as int) =~= a);
    assert(w.subrange(a.len() as int, (a.len() + bb.len()) as int) =~= bb);
    assert(w.subrange((a.len() + bb.len()) as int, w.len() as int) =~= cc);
    lemma_chunk(s, i, w, 0, a);
    lemma_chunk(s, i, w, a.len() as int, bb);
    lemma_chunk(s, i, w, (a.len() + bb.len()) as int, cc);
    // the first third
    let sh = sstr(p.hijri);
    let o1 = frag_pt_open().len() as int;
    let o2 = o1 + sh.len() as int;
    let o3 = o2 + frag_date_key().len() as int;
    let o4 = o3 + 13;
    let o5 = o4 + frag_imsak_key().len() as int;
    let o6 = o5 + 10;
    assert(a.subrange(0, o1) =~= frag_pt_open());
    assert(a.subrange(o1, o2) =~= sh);
    assert(a.subrange(o2, o3) =~= frag_date_key());
    assert(a.subrange(o3, o4) =~= wd_str(p.date));
    assert(a.subrange(o4, o5) =~= frag_imsak_key());
    assert(a.subrange(o5, o6) =~= time_str(p.imsak.time));
    assert(o6 == a.len());
    lemma_chunk(s, i, a, 0, frag_pt_open());
    lemma_chunk(s, i, a, o1, sh);
    lemma_chunk(s, i, a, o2, frag_date_key());
    lemma_chunk(s, i, a, o3, wd_str(p.date));
    lemma_chunk(s, i, a, o4, frag_imsak_key());
    lemma_chunk(s, i, a, o5, time_str(p.imsak.time));
    assert(expect(s, i, frag_pt_open()) == Some(i + o1));
    lemma_rt_sstr(s, p.hijri, i + o1);
    assert(expect(s, i + o2, frag_date_key()) == Some(i + o3));
    lemma_rt_wd(s, p.date, i + o3);
    assert(expect(s, i + o4, frag_imsak_key()) == Some(i + o5));
    lemma_rt_time(s, p.imsak.time, i + o5);
    // the second third
    let ib = i + a.len() as int;
    let b1 = frag_fajr_key().len() as int;
    let b2 = b1 + 10;
    let b3 = b2 + frag_syuruk_key().len() as int;
    let b4 = b3 + 10;
    let b5 = b4 + frag_dhuhr_key().len() as int;
    let b6 = b5 + 10;
    assert(bb.subrange(0, b1) =~= frag_fajr_key());
    assert(bb.subrange(b1, b2) =~= time_str(p.fajr.time));
    assert(bb.subrange(b2, b3) =~= frag_syuruk_key());
    assert(bb.subrange(b3, b4) =~= time_str(p.syuruk.time));
    assert(bb.subrange(b4, b5) =~= frag_dhuhr_key());
    assert(bb.subrange(b5, b6) =~= time_str(p.dhuhr.time));
    assert(b6 == bb.len());
    lemma_chunk(s, ib, bb, 0, frag_fajr_key());
    lemma_chunk(s, ib, bb, b1, time_str(p.fajr.time));
    lemma_chunk(s, ib, bb, b2, frag_syuruk_key());
    lemma_chunk(s, ib, bb, b3, time_str(p.syuruk.time));
    lemma_chunk(s, ib, bb, b4, frag_dhuhr_key());
    lemma_chunk(s, ib, bb, b5, time_str(p.dhuhr.time));
    assert(expect(s, ib, frag_fajr_key()) == Some(ib + b1));
    lemma_rt_time(s, p.fajr.time, ib + b1);
    assert(expect(s, ib + b2, frag_syuruk_key()) == Some(ib + b3));
    lemma_rt_time(s, p.syuruk.time, ib + b3);
    assert(expect(s, ib + b4, frag_dhuhr_key()) == Some(ib + b5));
    lemma_rt_time(s, p.dhuhr.time, ib + b5);
    // the last third
    let ic = ib + bb.len() as int;
    let c1 = frag_asr_key().len() as int;
    let c2 = c1 + 10;
    let c3 = c2 + frag_maghrib_key().len() as int;
    let c4 = c3 + 10;
    let c5 = c4 + frag_isha_key().len() as int;
    let c6 = c5 + 10;
    let c7 = c6 + 1;
    assert(cc.subrange(0, c1) =~= frag_asr_key());
    assert(cc.subrange(c1, c2) =~= time_str(p.asr.time));
    assert(cc.subrange(c2, c3) =~= frag_maghrib_key());
    assert(cc.subrange(c3, c4) =~= time_str(p.maghrib.time));
    assert(cc.subrange(c4, c5) =~= frag_isha_key());
    assert(cc.subrange(c5, c6) =~= time_str(p.isha.time));
    assert(cc.subrange(c6, c7) =~= seq![('}' as u8)]);
    assert(c7 == cc.len());
    lemma_chunk(s, ic, cc, 0, frag_asr_key());
    lemma_chunk(s, ic, cc, c1, time_str(p.asr.time));
    lemma_chunk(s, ic, cc, c2, frag_maghrib_key());
    lemma_chunk(s, ic, cc, c3, time_str(p.maghrib.time));
    lemma_chunk(s, ic, cc, c4, frag_isha_key());
    lemma_chunk(s, ic, cc, c5, time_str(p.isha.time));
    lemma_chunk(s, ic, cc, c6, seq![('}' as u8)]);
    assert(expect(s, ic, frag_asr_key()) == Some(ic + c1));
    lemma_rt_time(s, p.asr.time, ic + c1);
    assert(expect(s, ic + c2, frag_maghrib_key()) == Some(ic + c3));
    lemma_rt_time(s, p.maghrib.time, ic + c3);
    assert(expect(s, ic + c4, frag_isha_key()) == Some(ic + c5));
    lemma_rt_time(s, p.isha.time, ic + c5);
    assert(expect(s, ic + c6, seq![('}' as u8)]) == Some(ic + c7));
    assert(ic + c7 == i + w.len());
}

#[verifier::rlimit(100)]
#[verifier::spinoff_prover]
proof fn lemma_rt_rec(s: Seq<u8>, r: CacheEntryV, i: int, today: Date)
    requires
        rec_valid(r),
        0 <= i,
        i + ser_rec(r).len() <= s.len(),
        s.subrange(i, i + ser_rec(r).len() as int) == ser_rec(r),
    ensures
        ps_rec(s, i, today) == Some((rebind_rec(r, today), i + ser_rec(r).len() as int)),
{
    reveal(ser_rec);
    let w = ser_rec(r);
    lemma_iso_dt_rt(r.last_update);
    let o1 = frag_rec_open().len() as int;
    let o2 = o1 + 21;
    let o3 = o2 + frag_data_key().len() as int;
    let o4 = o3 + ser_pt(r.data).len() as int;
    let o5 = o4 + 1;
    assert(w.subrange(0, o1) =~= frag_rec_open());
    assert(w.subrange(o1, o2) =~= dt_str(r.last_update));
    assert(w.subrange(o2, o3) =~= frag_data_key());
    assert(w.subrange(o3, o4) =~= ser_pt(r.data));
    assert(w.subrange(o4, o5) =~= seq![('}' as u8)]);
    assert(o5 == w.len());
    lemma_chunk(s, i, w, 0, frag_rec_open());
    lemma_chunk(s, i, w, o1, dt_str(r.last_update));
    lemma_chunk(s, i, w, o2, frag_data_key());
    lemma_chunk(s, i, w, o3, ser_pt(r.data));
    lemma_chunk(s, i, w, o4, seq![('}' as u8)]);
    assert(expect(s, i, frag_rec_open()) == Some(i + o1));
    lemma_rt_dt(s, r.last_update, i + o1);
    assert(expect(s, i + o2, frag_data_key()) == Some(i + o3));
    lemma_rt_pt(s, r.data, i + o3, today);
    assert(expect(s, i + o4, seq![('}' as u8)]) == Some(i + o5));
}

#[verifier::rlimit(100)]
#[verifier::spinoff_prover]
proof fn lemma_rt_day(s: Seq<u8>, r: CacheEntryV, i: int, today: Date)
    requires
        rec_valid(r),
        0 <= i,
        i + ser_day(r).len() <= s.len(),
        s.subrange(i, i + ser_day(r).len() as int) == ser_day(r),
    ensures
        ps_day(s, i, today) == Some((rebind_rec(r, today), i + ser_day(r).len() as int)),
{
    reveal(ser_day);
    let w = ser_day(r);
    lemma_iso_date_rt(r.data.date);
    let o1: int = 12;
    let o2 = o1 + 1;
    let o3 = o2 + ser_rec(r).len() as int;
    assert(w.subrange(0, o1) =~= date_key_str(r.data.date));
    assert(w.subrange(o1, o2) =~= seq![(':' as u8)]);
    assert(w.subrange(o2, o3) =~= ser_rec(r));
    assert(o3 == w.len());
    lemma_chunk(s, i, w, 0, date_key_str(r.data.date));
    lemma_chunk(s, i, w, o1, seq![(':' as u8)]);
    lemma_chunk(s, i, w, o2, ser_rec(r));
    lemma_rt_datekey(s, r.data.date, i);
    assert(expect(s, i + o1, seq![(':' as u8)]) == Some(i + o2));
    lemma_rt_rec(s, r, i + o2, today);
    assert(rebind_rec(r, today).data.date == r.data.date);
}

#[verifier::rlimit(100)]
#[verifier::spinoff_prover]
proof fn lemma_rt_days(s: Seq<u8>, recs: Seq<CacheEntryV>, i: int, today: Date)
    requires
        1 <= recs.len(),
        forall|k: int| 0 <= k < recs.len() ==> rec_valid(#[trigger] recs[k]),
        0 <= i,
        i + ser_days(recs).len() <= s.len(),
        s.subrange(i, i + ser_days(recs).len() as int) == ser_days(recs),
        i + ser_days(recs).len() == s.len() || s[i + ser_days(recs).len() as int] != (',' as u8),
    ensures
        ps_days(s, i, today) == Some((rebind_recs(recs, today), i + ser_days(recs).len() as int)),
    decreases recs.len(),
{
    reveal(ser_days);
    reveal(ser_day);
    let w = ser_days(recs);
    let d0 = ser_day(recs[0]);
    if recs.len() == 1 {
        lemma_rt_day(s, recs[0], i, today);
        let j = i + d0.len() as int;
        assert(j > i);
        assert(rebind_recs(recs, today) =~= seq![rebind_rec(recs[0], today)]);
    } else {
        assert(w.subrange(0, d0.len() as int) =~= d0);
        assert(w.subrange(d0.len() as int, (d0.len() + 1) as int) =~= seq![(',' as u8)]);
        assert(w.subrange((d0.len() + 1) as int, w.len() as int) =~= ser_days(recs.skip(1)));
        lemma_chunk(s, i, w, 0, d0);
        lemma_chunk(s, i, w, d0.len() as int, seq![(',' as u8)]);
        lemma_chunk(s, i, w, (d0.len() + 1) as int, ser_days(recs.skip(1)));
        lemma_rt_day(s, recs[0], i, today);
        let j = i + d0.len() as int;
        assert(s[j] == (',' as u8)) by {
            assert(s.subrange(j, j + 1)[0] == (',' as u8));
        }
        assert(forall|k: int| 0 <= k < recs.skip(1).len() ==> rec_valid(#[trigger] recs.skip(1)[k]));
        lemma_rt_days(s, recs.skip(1), j + 1, today);
        assert(rebind_recs(recs, today) =~= seq![rebind_rec(recs[0], today)] + rebind_recs(
            recs.skip(1),
            today,
        ));
    }
}

#[verifier::rlimit(100)]
#[verifier::spinoff_prover]
proof fn lemma_rt_block(s: Seq<u8>, b: ZoneBlockV, i: int, today: Date)
    requires
        block_valid(b),
        0 <= i,
        i + ser_block(b).len() <= s.len(),
        s.subrange(i, i + ser_block(b).len() as int) == ser_block(b),
    ensures
        ps_block(s, i, today) == Some((
            ZoneBlockV { zone: b.zone, recs: rebind_recs(b.recs, today) },
            i + ser_block(b).len() as int,
        )),
{
    reveal(ser_block);
    reveal(ser_days);
    reveal(ser_day);
    let w = ser_block(b);
    lemma_zone_code_rt(b.zone);
    let o1: int = 7;
    let o2 = o1 + 2;
    let o3 = o2 + ser_days(b.recs).len() as int;
    let o4 = o3 + 1;
    assert(w.subrange(0, o1) =~= zone_str(b.zone));
    assert(w.subrange(o1, o2) =~= seq![(':' as u8), ('{' as u8)]);
    assert(w.subrange(o2, o3) =~= ser_days(b.recs));
    assert(w.subrange(o3, o4) =~= seq![('}' as u8)]);
    assert(o4 == w.len());
    lemma_chunk(s, i, w, 0, zone_str(b.zone));
    lemma_chunk(s, i, w, o1, seq![(':' as u8), ('{' as u8)]);
    lemma_chunk(s, i, w, o2, ser_days(b.recs));
    lemma_chunk(s, i, w, o3, seq![('}' as u8)]);
    lemma_rt_zone(s, b.zone, i);
    assert(expect(s, i + o1, seq![(':' as u8), ('{' as u8)]) == Some(i + o2));
    assert(s[i + o3] == ('}' as u8)) by {
        assert(s.subrange(i + o3, i + o4)[0] == ('}' as u8));
    }
    if b.recs.len() == 0 {
        assert(o2 == o3);
        assert(rebind_recs(b.recs, today) =~= Seq::<CacheEntryV>::empty());
    } else {
        assert(s[i + o2] == ('"' as u8)) by {
            assert(ser_days(b.recs)[0] == ser_day(b.recs[0])[0]);
            assert(ser_day(b.recs[0])[0] == date_key_str(b.recs[0].data.date)[0]);
            assert(s.subrange(i + o2, i + o3)[0] == ser_days(b.recs)[0]);
        }
        lemma_rt_days(s, b.recs, i + o2, today);
        assert(expect(s, i + o3, seq![('}' as u8)]) == Some(i + o4));
    }
}

#[verifier::rlimit(100)]
#[verifier::spinoff_prover]
proof fn lemma_rt_blocks(s: Seq<u8>, rows: Seq<ZoneBlockV>, i: int, today: Date)
    requires
        1 <= rows.len(),
        cache_valid(rows),
        0 <= i,
        i + ser_blocks(rows).len() <= s.len(),
        s.subrange(i, i + ser_blocks(rows).len() as int) == ser_blocks(rows),
        i + ser_blocks(rows).len() == s.len() || s[i + ser_blocks(rows).len() as int] != (
        ',' as u8),
    ensures
        ps_blocks(s, i, today) == Some((
            rebind_rows(rows, today),
            i + ser_blocks(rows).len() as int,
        )),
    decreases rows.len(),
{
    reveal(ser_blocks);
    reveal(ser_block);
    let w = ser_blocks(rows);
    let b0 = ser_block(rows[0]);
    if rows.len() == 1 {
        lemma_rt_block(s, rows[0], i, today);
        assert(rebind_rows(rows, today) =~= seq![
            ZoneBlockV { zone: rows[0].zone, recs: rebind_recs(rows[0].recs, today) },
        ]);
    } else {
        assert(w.subrange(0, b0.len() as int) =~= b0);
        assert(w.subrange(b0.len() as int, (b0.len() + 1) as int) =~= seq![(',' as u8)]);
        assert(w.subrange((b0.len() + 1) as int, w.len() as int) =~= ser_blocks(rows.skip(1)));
        lemma_chunk(s, i, w, 0, b0);
        lemma_chunk(s, i, w, b0.len() as int, seq![(',' as u8)]);
        lemma_chunk(s, i, w, (b0.len() + 1) as int, ser_blocks(rows.skip(1)));
        lemma_rt_block(s, rows[0], i, today);
        let j = i + b0.len() as int;
        assert(s[j] == (',' as u8)) by {
            assert(s.subrange(j, j + 1)[0] == (',' as u8));
        }
        assert(cache_valid(rows.skip(1))) by {
            assert(forall|k: int|
                0 <= k < rows.skip(1).len() ==> block_valid(#[trigger] rows.skip(1)[k]));
        }
        lemma_rt_blocks(s, rows.skip(1), j + 1, today);
        assert(rebind_rows(rows, today) =~= seq![
            ZoneBlockV { zone: rows[0].zone, recs: rebind_recs(rows[0].recs, today) },
        ] + rebind_rows(rows.skip(1), today));
    }
}

/// Loading the bytes that `to_file_bytes` wrote reproduces the store, with
/// every entry's timestamps re-anchored to the day of loading.
#[verifier::rlimit(100)]
#[verifier::spinoff_prover]
pub proof fn lemma_cache_file_rt(rows: Seq<ZoneBlockV>, today: Date)
    requires
        cache_valid(rows),
    ensures
        spec_parse_cache(ser_cache(rows), today) == Some(rebind_rows(rows, today)),
{
    reveal(ser_cache);
    reveal(ser_blocks);
    reveal(ser_block);
    let s = ser_cache(rows);
    assert(s[0] == ('{' as u8));
    assert(s.subrange(0, 1) =~= seq![('{' as u8)]);
    assert(expect(s, 0, seq![('{' as u8)]) == Some(1int));
    if rows.len() == 0 {
        assert(ser_blocks(rows) =~= Seq::<u8>::empty());
        assert(s.len() == 2);
        assert(s[1] == ('}' as u8));
        assert(rebind_rows(rows, today) =~= Seq::<ZoneBlockV>::empty());
    } else {
        let bl = ser_blocks(rows);
        assert(s.subrange(1, 1 + bl.len() as int) =~= bl);
        assert(s[(1 + bl.len()) as int] == ('}' as u8));
        assert(s[1] == ('"' as u8)) by {
            assert(bl[0] == ser_block(rows[0])[0]);
            assert(ser_block(rows[0])[0] == zone_str(rows[0].zone)[0]);
        }
        lemma_rt_blocks(s, rows, 1, today);
        assert(s.subrange(1 + bl.len() as int, 2 + bl.len() as int) =~= seq![('}' as u8)]);
        assert(expect(s, 1 + bl.len() as int, seq![('}' as u8)]) == Some(2 + bl.len() as int));
        assert(2 + bl.len() == s.len());
    }
}


// ---------- loading, and the persistence law ----------

proof fn lemma_blk_lookup_rebind(recs: Seq<CacheEntryV>, today: Date, d: Date)
    ensures
        blk_lookup(rebind_recs(recs, today), d) == match blk_lookup(recs, d) {
            Some(r) => Some(rebind_rec(r, today)),
            None => None::<CacheEntryV>,
        },
    decreases recs.len(),
{
    if recs.len() == 0 {
        assert(rebind_recs(recs, today) =~= Seq::<CacheEntryV>::empty());
    } else {
        let rr = rebind_recs(recs, today);
        assert(rr[0] == rebind_rec(recs[0], today));
        assert(rr.skip(1) =~= rebind_recs(recs.skip(1), today));
        lemma_blk_lookup_rebind(recs.skip(1), today, d);
    }
}

/// Re-anchoring on load changes no key and no stored payload other than
/// the embedded day of each time field.
pub proof fn lemma_cache_lookup_rebind(rows: Seq<ZoneBlockV>, today: Date, z: Zones, d: Date)
    ensures
        cache_lookup(rebind_rows(rows, today), z, d) == match cache_lookup(rows, z, d) {
            Some(r) => Some(rebind_rec(r, today)),
            None => None::<CacheEntryV>,
        },
    decreases rows.len(),
{
    if rows.len() == 0 {
        assert(rebind_rows(rows, today) =~= Seq::<ZoneBlockV>::empty());
    } else {
        let rr = rebind_rows(rows, today);
        assert(rr[0] == ZoneBlockV {
            zone: rows[0].zone,
            recs: rebind_recs(rows[0].recs, today),
        });
        assert(rr.skip(1) =~= rebind_rows(rows.skip(1), today));
        if rows[0].zone == z {
            lemma_blk_lookup_rebind(rows[0].recs, today, d);
        } else {
            lemma_cache_lookup_rebind(rows.skip(1), today, z, d);
        }
    }
}

impl Cache {
    /// Reads a store back from the bytes of a cache file. Any read that
    /// does not yield exactly the canonical form — a missing, truncated or
    /// corrupt file — produces the empty store, never an error.
    pub fn from_file_bytes(bytes: &Vec<u8>, today: Date) -> (r: Cache)
        requires
            date_valid(today),
        ensures
            match spec_parse_cache(bytes@, today) {
                Some(rows) => r@ == rows,
                None => r@ == Seq::<ZoneBlockV>::empty(),
            },
            cache_valid(r@),
    {
        match parse_cache_bytes(bytes, today) {
            Some(rows) => {
                let c = Cache { rows };
                proof {
                    lemma_parse_cache_valid(bytes@, today);
                }
                c
            },
            None => {
                let c = Cache { rows: Vec::new() };
                proof {
                    assert(c@ =~= Seq::<ZoneBlockV>::empty());
                }
                c
            },
        }
    }
}

/// Insert, then save, then a fresh load of the written bytes: the loaded
/// store holds the inserted record at its `(zone, date)` key, with the same
/// label, date, refresh stamp and times of day; only the embedded day of
/// each time field is re-anchored to the day of loading.
pub proof fn lemma_insert_save_load(
    rows: Seq<ZoneBlockV>,
    z: Zones,
    p: PrayerTimeV,
    now: DateTime,
    load_day: Date,
)
    requires
        cache_valid(rows),
        pt_valid(p),
        datetime_valid(now),
        date_valid(load_day),
    ensures
        ({
            let saved = ser_cache(spec_insert(rows, z, CacheEntryV { last_update: now, data: p }));
            let loaded = spec_parse_cache(saved, load_day);
            loaded is Some && cache_lookup(loaded->Some_0, z, p.date) == Some(
                CacheEntryV { last_update: now, data: rebind_pt(p, load_day) },
            )
        }),
{
    let rec = CacheEntryV { last_update: now, data: p };
    let rows2 = spec_insert(rows, z, rec);
    lemma_insert_preserves_valid(rows, z, rec);
    lemma_cache_file_rt(rows2, load_day);
    lemma_cache_lookup_insert(rows, z, rec, z, p.date);
    lemma_cache_lookup_rebind(rows2, load_day, z, p.date);
}


proof fn lemma_blk_lookup_skip(recs: Seq<CacheEntryV>, d: Date, k: int)
    requires
        0 <= k <= recs.len(),
        forall|j: int| 0 <= j < k ==> (#[trigger] recs[j]).data.date != d,
    ensures
        blk_lookup(recs, d) == blk_lookup(recs.skip(k), d),
    decreases k,
{
    if k == 0 {
        assert(recs.skip(0) =~= recs);
    } else {
        lemma_blk_lookup_skip(recs.skip(1), d, k - 1);
        assert(recs.skip(1).skip(k - 1) =~= recs.skip(k));
    }
}

proof fn lemma_cache_lookup_skip(rows: Seq<ZoneBlockV>, z: Zones, d: Date, i: int)
    requires
        0 <= i <= rows.len(),
        forall|j: int| 0 <= j < i ==> (#[trigger] rows[j]).zone != z,
    ensures
        cache_lookup(rows, z, d) == cache_lookup(rows.skip(i), z, d),
    decreases i,
{
    if i == 0 {
        assert(rows.skip(0) =~= rows);
    } else {
        lemma_cache_lookup_skip(rows.skip(1), z, d, i - 1);
        assert(rows.skip(1).skip(i - 1) =~= rows.skip(i));
    }
}

impl Cache {
    /// How many zones the store currently holds blocks for.
    pub fn zone_count(&self) -> (r: usize)
        ensures
            r == self@.len(),
    {
        self.rows.len()
    }

    /// The record stored for a zone and date, if any: the executable twin
    /// of `cache_lookup`.
    pub fn get(&self, zone: Zones, date: Date) -> (r: Option<&CacheEntry>)
        ensures
            match r {
                Some(e) => cache_lookup(self@, zone, date) == Some(e@),
                None => cache_lookup(self@, zone, date) is None,
            },
    {
        match find_zone(&self.rows, zone) {
            None => {
                proof {
                    lemma_cache_lookup_skip(self@, zone, date, self@.len() as int);
                    assert(self@.skip(self@.len() as int) =~= Seq::<ZoneBlockV>::empty());
                }
                None
            },
            Some(i) => {
                proof {
                    lemma_cache_lookup_skip(self@, zone, date, i as int);
                    assert(self@.skip(i as int)[0] == self@[i as int]);
                }
                let recs = &self.rows[i].recs;
                let ghost recsv = self@[i as int].recs;
                match find_date(recs, date) {
                    None => {
                        proof {
                            lemma_blk_lookup_skip(recsv, date, recsv.len() as int);
                            assert(recsv.skip(recsv.len() as int) =~= Seq::<CacheEntryV>::empty());
                        }
                        None
                    },
                    Some(k) => {
                        proof {
                            lemma_blk_lookup_skip(recsv, date, k as int);
                            assert(recsv.skip(k as int)[0] == recsv[k as int]);
                        }
                        Some(&recs[k])
                    },
                }
            },
        }
    }
}


impl Cache {
    /// Upserts the record for `(zone, ptimes.date)` stamped with the
    /// current local time, as a run of a query does. The stamp is read
    /// from the clock, so only its validity is known here.
    pub fn insert_now(&mut self, zone: Zones, ptimes: PrayerTime)
        requires
            pt_valid(ptimes@),
        ensures
            exists|now: DateTime|
                datetime_valid(now) && #[trigger] final(self)@ == spec_insert(
                    old(self)@,
                    zone,
                    CacheEntryV { last_update: now, data: ptimes@ },
                ),
            cache_valid(old(self)@) ==> cache_valid(final(self)@),
    {
        let now = crate::outside::local_now();
        self.insert(zone, ptimes, now);
    }

    /// Reads a store back from the bytes of a cache file, re-anchoring the
    /// stored times to the current local calendar date, as loading does.
    /// Anything but the canonical form yields the empty store, never an
    /// error.
    pub fn load(bytes: &Vec<u8>) -> (r: Cache)
        ensures
            cache_valid(r@),
            exists|today: Date|
                date_valid(today) && (match #[trigger] spec_parse_cache(bytes@, today) {
                    Some(rows) => r@ == rows,
                    None => r@ == Seq::<ZoneBlockV>::empty(),
                }),
    {
        let today = crate::outside::local_today();
        let r = Cache::from_file_bytes(bytes, today);
        proof {
            assert(date_valid(today) && (match spec_parse_cache(bytes@, today) {
                Some(rows) => r@ == rows,
                None => r@ == Seq::<ZoneBlockV>::empty(),
            }));
        }
        r
    }
}

} // verus!
