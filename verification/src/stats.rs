//! Per-wallet hashrate accounting on the node side: miners report their
//! hashrate with a timestamp, queries treat entries older than ten seconds
//! as gone, and a periodic sweep evicts them.

use vstd::prelude::*;
use vstd::string::*;
use crate::strutil::str_eq;

verus! {

/// After how many seconds a reported hashrate no longer counts.
pub const STALE_AFTER_SECS: u64 = 10;

/// One reported entry: the wallet address, the hashrate, and when it was
/// reported.
pub ghost struct StatsEntryModel {
    pub wallet: Seq<char>,
    pub hashrate: u64,
    pub reported: u64,
}

/// The per-wallet hashrate reports, newest report per wallet.
#[derive(Debug, PartialEq, Eq)]
pub struct StatsRegistry {
    pub wallets: Vec<String>,
    pub hashrates: Vec<u64>,
    pub reported: Vec<u64>,
}

impl View for StatsRegistry {
    type V = Seq<StatsEntryModel>;

    open spec fn view(&self) -> Seq<StatsEntryModel> {
        Seq::new(
            self.wallets@.len(),
            |i: int|
                StatsEntryModel {
                    wallet: self.wallets@[i]@,
                    hashrate: self.hashrates@[i],
                    reported: self.reported@[i],
                },
        )
    }
}

/// The index of the entry for a wallet, if one exists.
pub open spec fn find_wallet(s: Seq<StatsEntryModel>, w: Seq<char>) -> Option<int>
    decreases s.len(),
{
    if s.len() == 0 {
        None
    } else if s[0].wallet == w {
        Some(0)
    } else {
        match find_wallet(s.drop_first(), w) {
            Some(i) => Some(i + 1),
            None => None,
        }
    }
}

/// Each wallet appears at most once.
pub open spec fn stats_wf(s: Seq<StatsEntryModel>) -> bool {
    forall|i: int, j: int|
        0 <= i < j < s.len() ==> (#[trigger] s[i]).wallet != (#[trigger] s[j]).wallet
}

/// Whether an entry reported at `reported` still counts at `now`: as the
/// node computes it, the saturating age must not exceed the staleness
/// window, so reports from the future count as fresh.
pub open spec fn is_fresh(reported: u64, now: u64) -> bool {
    now <= reported || now - reported <= STALE_AFTER_SECS
}

/// The entries that survive an eviction sweep at `now`.
pub open spec fn fresh_entries(s: Seq<StatsEntryModel>, now: u64) -> Seq<StatsEntryModel>
    decreases s.len(),
{
    if s.len() == 0 {
        Seq::empty()
    } else {
        fresh_entries(s.drop_last(), now) + (if is_fresh(s.last().reported, now) {
            seq![s.last()]
        } else {
            Seq::<StatsEntryModel>::empty()
        })
    }
}

/// The sum of the hashrates of the fresh entries.
pub open spec fn fresh_hashrate_sum(s: Seq<StatsEntryModel>, now: u64) -> int
    decreases s.len(),
{
    if s.len() == 0 {
        0
    } else {
        fresh_hashrate_sum(s.drop_last(), now) + (if is_fresh(s.last().reported, now) {
            s.last().hashrate as int
        } else {
            0
        })
    }
}

impl StatsRegistry {
    /// An empty registry.
    pub fn new() -> (r: Self)
        ensures
            r@ =~= Seq::<StatsEntryModel>::empty(),
            stats_wf(r@),
            r.wf(),
    {
        StatsRegistry { wallets: Vec::new(), hashrates: Vec::new(), reported: Vec::new() }
    }

    /// The registry keeps one entry per wallet and aligned columns.
    pub open spec fn wf(&self) -> bool {
        &&& self.hashrates@.len() == self.wallets@.len()
        &&& self.reported@.len() == self.wallets@.len()
        &&& stats_wf(self@)
    }

    /// The position of a wallet's entry.
    fn find_index(&self, wallet: &str) -> (r: Option<usize>)
        requires
            self.wf(),
        ensures
            match r {
                Some(i) => i < self@.len() && self@[i as int].wallet == wallet@,
                None => find_wallet(self@, wallet@) is None,
            },
            r is Some <==> find_wallet(self@, wallet@) is Some,
    {
        let mut i: usize = 0;
        proof {
            assert(self@.skip(0) =~= self@);
        }
        while i < self.wallets.len()
            invariant
                self.wf(),
                i <= self@.len(),
                find_wallet(self@, wallet@) is Some <==> find_wallet(
                    self@.skip(i as int),
                    wallet@,
                ) is Some,
            decreases self@.len() - i,
        {
            proof {
                assert(self@.skip(i as int)[0] == self@[i as int]);
                assert(self@.skip(i as int).drop_first() =~= self@.skip(i + 1));
            }
            if str_eq(self.wallets[i].as_str(), wallet) {
                return Some(i);
            }
            i = i + 1;
        }
        proof {
            assert(self@.skip(self@.len() as int) =~= Seq::<StatsEntryModel>::empty());
        }
        None
    }

    /// Record a report: overwrite the wallet's entry or add one.
    pub fn update_stats(&mut self, wallet: &str, hashrate: u64, timestamp: u64)
        requires
            old(self).wf(),
        ensures
            final(self).wf(),
            exists|i: int|
                0 <= i < final(self)@.len() && final(self)@[i] == (StatsEntryModel {
                    wallet: wallet@,
                    hashrate: hashrate,
                    reported: timestamp,
                }),
            forall|w: Seq<char>|
                w != wallet@ ==> #[trigger] lookup(final(self)@, w) == lookup(old(self)@, w),
    {
        let ghost pre = self@;
        match self.find_index(wallet) {
            Some(i) => {
                self.hashrates[i] = hashrate;
                self.reported[i] = timestamp;
                proof {
                    assert(self@[i as int] == (StatsEntryModel {
                        wallet: wallet@,
                        hashrate: hashrate,
                        reported: timestamp,
                    }));
                    assert forall|w: Seq<char>| w != wallet@ implies #[trigger] lookup(self@, w)
                        == lookup(pre, w) by {
                        lemma_lookup_pointwise(pre, self@, w, wallet@);
                    }
                    assert(stats_wf(self@)) by {
                        assert(forall|k: int|
                            0 <= k < self@.len() ==> (#[trigger] self@[k]).wallet
                                == pre[k].wallet);
                    }
                }
            },
            None => {
                self.wallets.push(wallet.to_owned());
                self.hashrates.push(hashrate);
                self.reported.push(timestamp);
                proof {
                    assert(self@.drop_last() =~= pre);
                    assert(self@[self@.len() - 1] == (StatsEntryModel {
                        wallet: wallet@,
                        hashrate: hashrate,
                        reported: timestamp,
                    }));
                    lemma_find_wallet_none_means_absent(pre, wallet@);
                    assert(stats_wf(self@)) by {
                        assert(forall|k: int|
                            0 <= k < pre.len() ==> (#[trigger] self@[k]) == pre[k]);
                    }
                    assert(self@ =~= pre.push(self@.last()));
                    assert forall|w: Seq<char>| w != wallet@ implies #[trigger] lookup(self@, w)
                        == lookup(pre, w) by {
                        lemma_lookup_push_other(pre, self@.last(), w);
                    }
                }
            },
        }
    }

    /// Answer `getwallethashrate`: the fresh entry's hashrate and report
    /// time, or zeros when the entry is missing or stale.
    pub fn get_wallet_hashrate(&self, wallet: &str, now: u64) -> (r: (u64, u64))
        requires
            self.wf(),
        ensures
            r == wallet_hashrate_spec(self@, wallet@, now),
    {
        match self.find_index(wallet) {
            Some(i) => {
                let ts = self.reported[i];
                let fresh = now <= ts || now - ts <= STALE_AFTER_SECS;
                proof {
                    lemma_lookup_at_index(self@, wallet@, i as int);
                }
                if fresh {
                    (self.hashrates[i], ts)
                } else {
                    (0, 0)
                }
            },
            None => {
                proof {
                    lemma_find_none_lookup_none(self@, wallet@);
                }
                (0, 0)
            },
        }
    }

    /// Evict every stale entry, as the periodic sweep does.
    pub fn evict_stale(&mut self, now: u64)
        requires
            old(self).wf(),
        ensures
            final(self).wf(),
            final(self)@ =~= fresh_entries(old(self)@, now),
    {
        let ghost pre = self@;
        let mut w2: Vec<String> = Vec::new();
        let mut h2: Vec<u64> = Vec::new();
        let mut t2: Vec<u64> = Vec::new();
        let mut i: usize = 0;
        while i < self.wallets.len()
            invariant
                self.wf(),
                pre == self@,
                i <= self@.len(),
                h2@.len() == w2@.len(),
                t2@.len() == w2@.len(),
                views_of(w2@, h2@, t2@) =~= fresh_entries(pre.subrange(0, i as int), now),
            decreases self@.len() - i,
        {
            let ts = self.reported[i];
            let fresh = now <= ts || now - ts <= STALE_AFTER_SECS;
            proof {
                assert(pre.subrange(0, i + 1).drop_last() =~= pre.subrange(0, i as int));
                assert(pre.subrange(0, i + 1).last() == pre[i as int]);
            }
            if fresh {
                w2.push(self.wallets[i].clone());
                h2.push(self.hashrates[i]);
                t2.push(ts);
            }
            proof {
                assert(views_of(w2@, h2@, t2@) =~= fresh_entries(pre.subrange(0, i + 1), now));
            }
            i = i + 1;
        }
        proof {
            assert(pre.subrange(0, pre.len() as int) =~= pre);
        }
        self.wallets = w2;
        self.hashrates = h2;
        self.reported = t2;
        proof {
            lemma_fresh_entries_keeps_wf(pre, now);
        }
    }

    /// Answer `getnetworkhashrate`: the sum of the fresh hashrates, capped
    /// at the largest representable value.
    pub fn network_hashrate(&self, now: u64) -> (r: u64)
        requires
            self.wf(),
        ensures
            r == clamp_u64(fresh_hashrate_sum(self@, now)),
    {
        let mut acc: u128 = 0;
        let mut i: usize = 0;
        while i < self.wallets.len()
            invariant
                self.wf(),
                i <= self@.len(),
                acc == fresh_hashrate_sum(self@.subrange(0, i as int), now),
                acc <= (i as int) * 0xffff_ffff_ffff_ffff,
            decreases self@.len() - i,
        {
            let ts = self.reported[i];
            let fresh = now <= ts || now - ts <= STALE_AFTER_SECS;
            proof {
                assert(self@.subrange(0, i + 1).drop_last() =~= self@.subrange(0, i as int));
                assert(self@.subrange(0, i + 1).last() == self@[i as int]);
                vstd::arithmetic::mul::lemma_mul_inequality(
                    i as int,
                    0xffff_ffff_ffff_ffff,
                    0xffff_ffff_ffff_ffff,
                );
            }
            if fresh {
                acc = acc + (self.hashrates[i] as u128);
            }
            i = i + 1;
        }
        proof {
            assert(self@.subrange(0, self@.len() as int) =~= self@);
        }
        if acc > 0xffff_ffff_ffff_ffffu128 {
            0xffff_ffff_ffff_ffffu64
        } else {
            acc as u64
        }
    }
}

/// A non-negative sum capped into the 64-bit range.
pub open spec fn clamp_u64(v: int) -> int {
    if v > 0xffff_ffff_ffff_ffff {
        0xffff_ffff_ffff_ffff
    } else {
        v
    }
}

/// What `getwallethashrate` answers for a wallet at `now`.
pub open spec fn wallet_hashrate_spec(s: Seq<StatsEntryModel>, w: Seq<char>, now: u64) -> (u64, u64) {
    match lookup(s, w) {
        Some(e) => {
            if is_fresh(e.reported, now) {
                (e.hashrate, e.reported)
            } else {
                (0u64, 0u64)
            }
        },
        None => (0u64, 0u64),
    }
}

/// The entry recorded for a wallet, if any.
pub open spec fn lookup(s: Seq<StatsEntryModel>, w: Seq<char>) -> Option<StatsEntryModel>
    decreases s.len(),
{
    if s.len() == 0 {
        None
    } else if s[0].wallet == w {
        Some(s[0])
    } else {
        lookup(s.drop_first(), w)
    }
}

/// The column representation read back as entries.
pub open spec fn views_of(ws: Seq<String>, hs: Seq<u64>, ts: Seq<u64>) -> Seq<StatsEntryModel> {
    Seq::new(
        ws.len(),
        |i: int| StatsEntryModel { wallet: ws[i]@, hashrate: hs[i], reported: ts[i] },
    )
}

/// When no entry is found, no index holds the wallet.
pub proof fn lemma_find_wallet_none_means_absent(s: Seq<StatsEntryModel>, w: Seq<char>)
    requires
        find_wallet(s, w) is None,
    ensures
        forall|i: int| 0 <= i < s.len() ==> (#[trigger] s[i]).wallet != w,
    decreases s.len(),
{
    if s.len() > 0 {
        lemma_find_wallet_none_means_absent(s.drop_first(), w);
        assert(forall|i: int|
            1 <= i < s.len() ==> (#[trigger] s[i]).wallet == s.drop_first()[i - 1].wallet);
    }
}

/// Two registries with the same wallets at each index, differing only at
/// entries for wallet `x`, answer `lookup` for any other wallet alike.
proof fn lemma_lookup_pointwise(
    a: Seq<StatsEntryModel>,
    b: Seq<StatsEntryModel>,
    w: Seq<char>,
    x: Seq<char>,
)
    requires
        a.len() == b.len(),
        forall|i: int|
            0 <= i < a.len() ==> (#[trigger] a[i]).wallet == (#[trigger] b[i]).wallet,
        forall|i: int| 0 <= i < a.len() && a[i].wallet != x ==> #[trigger] a[i] == #[trigger] b[i],
        w != x,
    ensures
        lookup(a, w) == lookup(b, w),
    decreases a.len(),
{
    if a.len() == 0 {
    } else if a[0].wallet == w {
        assert(a[0] == b[0]);
    } else {
        assert(forall|i: int|
            0 <= i < a.drop_first().len() ==> #[trigger] a.drop_first()[i] == a[i + 1]
                && #[trigger] b.drop_first()[i] == b[i + 1]);
        lemma_lookup_pointwise(a.drop_first(), b.drop_first(), w, x);
    }
}

/// Appending an entry for another wallet leaves a lookup unchanged.
proof fn lemma_lookup_push_other(s: Seq<StatsEntryModel>, e: StatsEntryModel, w: Seq<char>)
    requires
        e.wallet != w,
    ensures
        lookup(s.push(e), w) == lookup(s, w),
    decreases s.len(),
{
    assert(s.push(e).len() == s.len() + 1);
    if s.len() == 0 {
        assert(s.push(e)[0] == e);
        assert(s.push(e).drop_first() =~= Seq::<StatsEntryModel>::empty());
        assert(lookup(Seq::<StatsEntryModel>::empty(), w) is None);
        assert(lookup(s, w) is None);
    } else {
        assert(s.push(e)[0] == s[0]);
        assert(s.push(e).drop_first() =~= s.drop_first().push(e));
        lemma_lookup_push_other(s.drop_first(), e, w);
    }
}

/// A well-formed registry's lookup returns the entry found at any index
/// that holds the wallet.
pub proof fn lemma_lookup_at_index(s: Seq<StatsEntryModel>, w: Seq<char>, i: int)
    requires
        stats_wf(s),
        0 <= i < s.len(),
        s[i].wallet == w,
    ensures
        lookup(s, w) == Some(s[i]),
    decreases s.len(),
{
    if i == 0 {
    } else {
        assert(s[0].wallet != w);
        assert(forall|k: int|
            0 <= k < s.drop_first().len() ==> (#[trigger] s.drop_first()[k]) == s[k + 1]);
        assert(stats_wf(s.drop_first()));
        lemma_lookup_at_index(s.drop_first(), w, i - 1);
    }
}

/// Absence in `find_wallet` means absence in `lookup`.
pub proof fn lemma_find_none_lookup_none(s: Seq<StatsEntryModel>, w: Seq<char>)
    requires
        find_wallet(s, w) is None,
    ensures
        lookup(s, w) is None,
    decreases s.len(),
{
    if s.len() > 0 {
        lemma_find_none_lookup_none(s.drop_first(), w);
    }
}

/// Eviction keeps the one-entry-per-wallet shape.
pub proof fn lemma_fresh_entries_keeps_wf(s: Seq<StatsEntryModel>, now: u64)
    requires
        stats_wf(s),
    ensures
        stats_wf(fresh_entries(s, now)),
    decreases s.len(),
{
    if s.len() > 0 {
        assert(stats_wf(s.drop_last())) by {
            assert(forall|k: int|
                0 <= k < s.drop_last().len() ==> (#[trigger] s.drop_last()[k]) == s[k]);
        }
        lemma_fresh_entries_keeps_wf(s.drop_last(), now);
        lemma_fresh_entries_subset(s.drop_last(), now);
        let f = fresh_entries(s, now);
        let fp = fresh_entries(s.drop_last(), now);
        if is_fresh(s.last().reported, now) {
            assert(f =~= fp.push(s.last()));
            assert forall|i: int, j: int| 0 <= i < j < f.len() implies (#[trigger] f[i]).wallet
                != (#[trigger] f[j]).wallet by {
                if j == f.len() - 1 {
                    let k = choose|k: int| 0 <= k < s.drop_last().len() && s.drop_last()[k] == fp[i];
                    assert(s[k] == fp[i]);
                    assert(s[k].wallet != s.last().wallet);
                }
            }
        } else {
            assert(f =~= fp);
        }
    }
}

/// Every surviving entry stood in the registry.
pub proof fn lemma_fresh_entries_subset(s: Seq<StatsEntryModel>, now: u64)
    ensures
        forall|i: int|
            0 <= i < fresh_entries(s, now).len() ==> exists|k: int|
                0 <= k < s.len() && s[k] == #[trigger] fresh_entries(s, now)[i],
    decreases s.len(),
{
    if s.len() > 0 {
        lemma_fresh_entries_subset(s.drop_last(), now);
        assert forall|i: int| 0 <= i < fresh_entries(s, now).len() implies exists|k: int|
            0 <= k < s.len() && s[k] == #[trigger] fresh_entries(s, now)[i] by {
            let fp = fresh_entries(s.drop_last(), now);
            if i < fp.len() {
                assert(fresh_entries(s, now)[i] == fp[i]);
                let k = choose|k: int| 0 <= k < s.drop_last().len() && s.drop_last()[k] == fp[i];
                assert(s[k] == fresh_entries(s, now)[i]);
            } else {
                assert(fresh_entries(s, now)[i] == s.last());
                assert(s[s.len() - 1] == fresh_entries(s, now)[i]);
            }
        }
    }
}

} // verus!
