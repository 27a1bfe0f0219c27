//! The daily bandwidth allowance: what was sent and received today, and how much may follow.
use vstd::prelude::*;

use crate::clock;
use crate::size;

verus! {

/// The daily allowance, in bytes.
pub const DAILY_LIMIT: u64 = 268_435_456_000;

/// The direction of a transfer.
#[derive(Debug, Clone, Copy, PartialEq, Eq, Structural)]
pub enum TransferKind {
    Up,
    Down,
}

/// The bytes sent and received on one day.
#[derive(Debug)]
pub struct BandwidthStats {
    pub date: String,
    pub up_bytes: u64,
    pub down_bytes: u64,
}

/// What a `BandwidthStats` says.
pub struct Usage {
    pub date: Seq<char>,
    pub up: nat,
    pub down: nat,
}

impl View for BandwidthStats {
    type V = Usage;

    open spec fn view(&self) -> Usage {
        Usage { date: self.date@, up: self.up_bytes as nat, down: self.down_bytes as nat }
    }
}

impl DeepView for BandwidthStats {
    type V = Usage;

    open spec fn deep_view(&self) -> Usage {
        self@
    }
}

impl Clone for BandwidthStats {
    fn clone(&self) -> (res: Self)
        ensures
            res == *self,
    {
        BandwidthStats {
            date: self.date.clone(),
            up_bytes: self.up_bytes,
            down_bytes: self.down_bytes,
        }
    }
}

impl BandwidthStats {
    /// A day on which nothing was transferred yet.
    pub fn empty(date: String) -> (res: Self)
        ensures
            res@ == fresh_day(date@),
    {
        BandwidthStats { date, up_bytes: 0, down_bytes: 0 }
    }
}

impl Default for BandwidthStats {
    /// Today, with nothing transferred yet.
    fn default() -> (res: Self)
        ensures
            clock::is_date(res@.date),
            res@ == fresh_day(res@.date),
    {
        BandwidthStats::empty(clock::today())
    }
}

/// The allowance and what was used of it.
#[derive(Debug)]
pub struct BandwidthManager {
    pub stats: BandwidthStats,
    /// The daily limit in bytes.
    pub limit: u64,
    /// `stats` changed since it was last handed out to be written down.
    pub unsaved: bool,
}

/// What a `BandwidthManager` says.
pub struct Ledger {
    pub usage: Usage,
    pub limit: nat,
    pub unsaved: bool,
}

impl View for BandwidthManager {
    type V = Ledger;

    open spec fn view(&self) -> Ledger {
        Ledger { usage: self.stats@, limit: self.limit as nat, unsaved: self.unsaved }
    }
}

/// A day on which nothing was transferred yet.
pub open spec fn fresh_day(date: Seq<char>) -> Usage {
    Usage { date, up: 0, down: 0 }
}

/// The counters stop at the largest 64-bit number.
pub open spec fn capped(n: nat) -> nat {
    if n > u64::MAX {
        u64::MAX as nat
    } else {
        n
    }
}

/// `a - b`, or zero where `b` is larger.
pub open spec fn less(a: nat, b: nat) -> nat {
    if b > a {
        0
    } else {
        (a - b) as nat
    }
}

/// What the day's transfers come to with `bytes` more, as far as the counters go.
pub open spec fn projected(u: Usage, bytes: nat) -> nat {
    capped(u.up + u.down + bytes)
}

/// The counters after `bytes` more in the direction `kind`.
pub open spec fn counted(u: Usage, bytes: nat, kind: TransferKind) -> Usage {
    match kind {
        TransferKind::Up => Usage { up: capped(u.up + bytes), ..u },
        TransferKind::Down => Usage { down: capped(u.down + bytes), ..u },
    }
}

/// The counters after `bytes` in the direction `kind` were given back.
pub open spec fn given_back(u: Usage, bytes: nat, kind: TransferKind) -> Usage {
    match kind {
        TransferKind::Up => Usage { up: less(u.up, bytes), ..u },
        TransferKind::Down => Usage { down: less(u.down, bytes), ..u },
    }
}

/// The ledger once it is known that the day is `today`: another day starts afresh.
pub open spec fn on_day(l: Ledger, today: Seq<char>) -> Ledger {
    if l.usage.date == today {
        l
    } else {
        Ledger { usage: fresh_day(today), unsaved: true, ..l }
    }
}

/// `bytes` more stay within the limit.
pub open spec fn fits(l: Ledger, bytes: nat) -> bool {
    l.usage.up + l.usage.down + bytes <= l.limit
}

/// The ledger after `bytes` were counted.
pub open spec fn charged(l: Ledger, bytes: nat, kind: TransferKind) -> Ledger {
    Ledger { usage: counted(l.usage, bytes, kind), unsaved: true, ..l }
}

/// The ledger after a refund; a refund of nothing leaves it as it is.
pub open spec fn refunded(l: Ledger, bytes: nat, kind: TransferKind) -> Ledger {
    if bytes == 0 {
        l
    } else {
        Ledger { usage: given_back(l.usage, bytes, kind), unsaved: true, ..l }
    }
}

/// What a request is told that does not fit.
pub open spec fn limit_message(l: Ledger, bytes: nat) -> Seq<char> {
    "Daily bandwidth limit ("@ + size::size_text(l.limit) + ") exceeded! Used: "@ + size::size_text(
        projected(l.usage, bytes),
    )
}

/// `res` says whether `bytes` fit in `l`, and with which message they do not.
pub open spec fn verdict(l: Ledger, bytes: nat, res: Result<(), String>) -> bool {
    match res {
        Ok(_) => fits(l, bytes),
        Err(e) => !fits(l, bytes) && e@ == limit_message(l, bytes),
    }
}

/// The ledger that a reservation on `l` leaves: charged where it fits, else `l` itself.
pub open spec fn reserved(l: Ledger, bytes: nat, kind: TransferKind) -> Ledger {
    if fits(l, bytes) {
        charged(l, bytes, kind)
    } else {
        l
    }
}

impl BandwidthManager {
    /// Starts from the saved counters, or from an empty day where none could be read.
    pub fn new(saved: Option<BandwidthStats>) -> (res: Self)
        ensures
            res@.limit == DAILY_LIMIT,
            !res@.unsaved,
            saved matches Some(stats) ==> res@.usage == stats@,
            saved is None ==> clock::is_date(res@.usage.date) && res@.usage == fresh_day(
                res@.usage.date,
            ),
    {
        let stats = match saved {
            Some(stats) => stats,
            None => BandwidthStats::default(),
        };
        BandwidthManager { stats, limit: DAILY_LIMIT, unsaved: false }
    }

    /// Starts the counters afresh if `today` is not their day.
    pub fn check_and_reset_on(&mut self, today: String)
        ensures
            final(self)@ == on_day(old(self)@, today@),
            old(self).stats.date@ == today@ ==> *final(self) == *old(self),
            final(self).stats.date@ == today@,
            old(self).stats.date@ != today@ ==> final(self).stats.up_bytes == 0,
            old(self).stats.date@ != today@ ==> final(self).stats.down_bytes == 0,
            old(self).stats.date@ != today@ ==> final(self).unsaved,
            final(self).limit == old(self).limit,
    {
        if self.stats.date == today {
            return ;
        }
        self.stats = BandwidthStats::empty(today);
        self.unsaved = true;
    }

    /// Starts the counters afresh if the local day is not theirs.
    pub fn check_and_reset(&mut self)
        ensures
            exists|today: Seq<char>|
                clock::is_date(today) && final(self)@ == #[trigger] on_day(old(self)@, today),
    {
        self.check_and_reset_on(clock::today());
    }

    fn projected_total(&self, bytes: u64) -> (res: u64)
        ensures
            res == projected(self@.usage, bytes as nat),
    {
        self.stats.up_bytes.saturating_add(self.stats.down_bytes).saturating_add(bytes)
    }

    fn judge(&self, bytes: u64) -> (res: Result<(), String>)
        ensures
            verdict(self@, bytes as nat, res),
    {
        let total: u128 = self.stats.up_bytes as u128 + self.stats.down_bytes as u128
            + bytes as u128;
        if total > self.limit as u128 {
            let mut message = "Daily bandwidth limit (".to_owned();
            let limit_text = self.format_bytes(self.limit);
            message.append(limit_text.as_str());
            message.append(") exceeded! Used: ");
            let total_text = self.format_bytes(self.projected_total(bytes));
            message.append(total_text.as_str());
            return Err(message);
        }
        Ok(())
    }

    /// Whether `bytes` more may be transferred on the day `today`.
    pub fn can_transfer_on(&mut self, today: String, bytes: u64) -> (res: Result<(), String>)
        ensures
            final(self)@ == on_day(old(self)@, today@),
            verdict(on_day(old(self)@, today@), bytes as nat, res),
    {
        self.check_and_reset_on(today);
        self.judge(bytes)
    }

    /// Whether `bytes` more may be transferred today.
    pub fn can_transfer(&mut self, bytes: u64) -> (res: Result<(), String>)
        ensures
            exists|today: Seq<char>|
                {
                    &&& clock::is_date(today)
                    &&& final(self)@ == #[trigger] on_day(old(self)@, today)
                    &&& verdict(on_day(old(self)@, today), bytes as nat, res)
                },
    {
        self.can_transfer_on(clock::today(), bytes)
    }

    /// Counts `bytes` on the day `today`, unless they exceed the limit.
    pub fn try_reserve_on(&mut self, today: String, bytes: u64, kind: TransferKind) -> (res: Result<
        (),
        String,
    >)
        ensures
            final(self)@ == reserved(on_day(old(self)@, today@), bytes as nat, kind),
            verdict(on_day(old(self)@, today@), bytes as nat, res),
    {
        self.check_and_reset_on(today);
        let res = self.judge(bytes);
        if res.is_ok() {
            self.count(bytes, kind);
        }
        res
    }

    /// Checks and counts in one step: counts `bytes` today, unless they exceed the limit.
    /// On a failed transfer, give them back with `refund`.
    pub fn try_reserve(&mut self, bytes: u64, kind: TransferKind) -> (res: Result<(), String>)
        ensures
            exists|today: Seq<char>|
                {
                    &&& clock::is_date(today)
                    &&& final(self)@ == reserved(
                        #[trigger] on_day(old(self)@, today),
                        bytes as nat,
                        kind,
                    )
                    &&& verdict(on_day(old(self)@, today), bytes as nat, res)
                },
    {
        self.try_reserve_on(clock::today(), bytes, kind)
    }

    fn count(&mut self, bytes: u64, kind: TransferKind)
        ensures
            final(self)@ == charged(old(self)@, bytes as nat, kind),
    {
        match kind {
            TransferKind::Up => {
                self.stats.up_bytes = self.stats.up_bytes.saturating_add(bytes);
            },
            TransferKind::Down => {
                self.stats.down_bytes = self.stats.down_bytes.saturating_add(bytes);
            },
        }
        self.unsaved = true;
    }

    /// Gives back bytes that were reserved, after a partial or failed transfer.
    pub fn refund(&mut self, bytes: u64, kind: TransferKind)
        ensures
            final(self)@ == refunded(old(self)@, bytes as nat, kind),
    {
        if bytes == 0 {
            return ;
        }
        match kind {
            TransferKind::Up => {
                self.stats.up_bytes = self.stats.up_bytes.saturating_sub(bytes);
            },
            TransferKind::Down => {
                self.stats.down_bytes = self.stats.down_bytes.saturating_sub(bytes);
            },
        }
        self.unsaved = true;
    }

    /// Counts `bytes` sent on the day `today`, whatever the limit.
    pub fn add_up_on(&mut self, today: String, bytes: u64)
        ensures
            final(self)@ == charged(on_day(old(self)@, today@), bytes as nat, TransferKind::Up),
    {
        self.check_and_reset_on(today);
        self.count(bytes, TransferKind::Up);
    }

    /// Counts `bytes` sent today, whatever the limit.
    pub fn add_up(&mut self, bytes: u64)
        ensures
            exists|today: Seq<char>|
                clock::is_date(today) && final(self)@ == charged(
                    #[trigger] on_day(old(self)@, today),
                    bytes as nat,
                    TransferKind::Up,
                ),
    {
        self.add_up_on(clock::today(), bytes);
    }

    /// Counts `bytes` received on the day `today`, whatever the limit.
    pub fn add_down_on(&mut self, today: String, bytes: u64)
        ensures
            final(self)@ == charged(on_day(old(self)@, today@), bytes as nat, TransferKind::Down),
    {
        self.check_and_reset_on(today);
        self.count(bytes, TransferKind::Down);
    }

    /// Counts `bytes` received today, whatever the limit.
    pub fn add_down(&mut self, bytes: u64)
        ensures
            exists|today: Seq<char>|
                clock::is_date(today) && final(self)@ == charged(
                    #[trigger] on_day(old(self)@, today),
                    bytes as nat,
                    TransferKind::Down,
                ),
    {
        self.add_down_on(clock::today(), bytes);
    }

    /// The counters of the day `today`.
    pub fn get_stats_on(&mut self, today: String) -> (res: BandwidthStats)
        ensures
            final(self)@ == on_day(old(self)@, today@),
            res@ == on_day(old(self)@, today@).usage,
    {
        self.check_and_reset_on(today);
        self.stats.clone()
    }

    /// The counters of today.
    pub fn get_stats(&mut self) -> (res: BandwidthStats)
        ensures
            exists|today: Seq<char>|
                {
                    &&& clock::is_date(today)
                    &&& final(self)@ == #[trigger] on_day(old(self)@, today)
                    &&& res@ == on_day(old(self)@, today).usage
                },
    {
        self.get_stats_on(clock::today())
    }

    /// Hands out the counters if they are to be written down, and marks them as written.
    pub fn take_unsaved(&mut self) -> (res: Option<BandwidthStats>)
        ensures
            final(self)@ == (Ledger { unsaved: false, ..old(self)@ }),
            res.deep_view() == if old(self)@.unsaved {
                Some(old(self)@.usage)
            } else {
                None
            },
    {
        if self.unsaved {
            self.unsaved = false;
            Some(self.stats.clone())
        } else {
            None
        }
    }

    /// Writes a byte count in the largest fitting unit, with two decimals.
    pub fn format_bytes(&self, bytes: u64) -> (res: String)
        ensures
            res@ == size::size_text(bytes as nat),
    {
        size::write_size(bytes)
    }
}

/// A reservation never takes a day over its limit: what was granted stays within it.
pub proof fn law_reservations_stay_within_limit(l: Ledger, bytes: nat, kind: TransferKind)
    requires
        l.limit <= u64::MAX,
        fits(l, bytes),
    ensures
        reserved(l, bytes, kind).usage.up + reserved(l, bytes, kind).usage.down <= l.limit,
        reserved(l, bytes, kind).usage.up + reserved(l, bytes, kind).usage.down == l.usage.up
            + l.usage.down + bytes,
{
}

/// A day that is within its limit stays so: reservations, whether granted or refused, refunds
/// and the start of another day never take it over.
pub proof fn law_limit_is_kept(l: Ledger, bytes: nat, kind: TransferKind, today: Seq<char>)
    requires
        l.limit <= u64::MAX,
        l.usage.up + l.usage.down <= l.limit,
    ensures
        ({
            let u = reserved(l, bytes, kind).usage;
            u.up + u.down <= l.limit
        }),
        ({
            let u = refunded(l, bytes, kind).usage;
            u.up + u.down <= l.limit
        }),
        ({
            let u = on_day(l, today).usage;
            u.up + u.down <= l.limit
        }),
{
}

/// A refused reservation counts nothing.
pub proof fn law_refusal_counts_nothing(l: Ledger, bytes: nat, kind: TransferKind)
    requires
        !fits(l, bytes),
    ensures
        reserved(l, bytes, kind) == l,
{
}

/// A refund undoes a reservation that was granted.
pub proof fn law_refund_undoes_reservation(l: Ledger, bytes: nat, kind: TransferKind)
    requires
        l.limit <= u64::MAX,
        fits(l, bytes),
    ensures
        refunded(reserved(l, bytes, kind), bytes, kind).usage == l.usage,
        refunded(reserved(l, bytes, kind), bytes, kind).limit == l.limit,
{
}

/// A transfer that moved only `moved` of the reserved bytes, and gave the others back, is
/// counted with `moved` bytes.
pub proof fn law_partial_refund_counts_what_moved(
    l: Ledger,
    bytes: nat,
    moved: nat,
    kind: TransferKind,
)
    requires
        l.limit <= u64::MAX,
        fits(l, bytes),
        moved <= bytes,
    ensures
        refunded(reserved(l, bytes, kind), (bytes - moved) as nat, kind).usage == counted(
            l.usage,
            moved,
            kind,
        ),
{
}

/// Transfers and refunds in one direction leave the other counter and the day alone.
pub proof fn law_directions_are_separate(l: Ledger, bytes: nat)
    ensures
        charged(l, bytes, TransferKind::Up).usage.down == l.usage.down,
        charged(l, bytes, TransferKind::Down).usage.up == l.usage.up,
        refunded(l, bytes, TransferKind::Up).usage.down == l.usage.down,
        refunded(l, bytes, TransferKind::Down).usage.up == l.usage.up,
        forall|kind: TransferKind|
            #![trigger charged(l, bytes, kind)]
            charged(l, bytes, kind).usage.date == l.usage.date,
        forall|kind: TransferKind|
            #![trigger refunded(l, bytes, kind)]
            refunded(l, bytes, kind).usage.date == l.usage.date,
{
}

/// A new day starts with empty counters; looking on the same day changes nothing, whatever was
/// counted.
pub proof fn law_day_starts_once(l: Ledger, today: Seq<char>)
    ensures
        on_day(l, today).usage.date == today,
        on_day(l, today).limit == l.limit,
        l.usage.date == today ==> on_day(l, today) == l,
        l.usage.date != today ==> on_day(l, today).usage == (Usage { date: today, up: 0, down: 0 }),
        l.usage.date != today ==> on_day(l, today).unsaved,
        on_day(on_day(l, today), today) == on_day(l, today),
{
}

/// A reservation is granted exactly if the day's bytes and its own stay within the limit; one
/// that is granted is added to its direction, and one that is refused to neither.
pub proof fn law_reservation_adds_or_refuses(
    l: Ledger,
    bytes: nat,
    kind: TransferKind,
    res: Result<(), String>,
)
    requires
        l.limit <= u64::MAX,
    ensures
        fits(l, bytes) <==> l.usage.up + l.usage.down + bytes <= l.limit,
        verdict(l, bytes, res) ==> (res is Ok <==> l.usage.up + l.usage.down + bytes <= l.limit),
        l.usage.up + l.usage.down + bytes <= l.limit ==> {
            let after = reserved(l, bytes, kind);
            &&& after.usage.up == l.usage.up + if kind is Up {
                bytes
            } else {
                0
            }
            &&& after.usage.down == l.usage.down + if kind is Down {
                bytes
            } else {
                0
            }
            &&& after.usage.date == l.usage.date
            &&& after.limit == l.limit
            &&& after.unsaved
        },
        l.usage.up + l.usage.down + bytes > l.limit ==> reserved(l, bytes, kind) == l,
{
}

/// A refusal names the limit, and what the day would have come to.
pub proof fn law_refusal_names_limit_and_total(l: Ledger, bytes: nat, res: Result<(), String>)
    requires
        verdict(l, bytes, res),
        l.usage.up + l.usage.down + bytes > l.limit,
        l.usage.up + l.usage.down + bytes <= u64::MAX,
    ensures
        res matches Err(e) && e@ == "Daily bandwidth limit ("@ + size::size_text(l.limit)
            + ") exceeded! Used: "@ + size::size_text(l.usage.up + l.usage.down + bytes),
{
}

/// Counting adds to one direction whatever the limit, a refund takes from it, and neither leaves
/// the range of the counters. What changed is marked to be written down.
pub proof fn law_counting_and_refunding(l: Ledger, bytes: nat, kind: TransferKind)
    ensures
        ({
            let c = charged(l, bytes, kind);
            let r = refunded(l, bytes, kind);
            let before = if kind is Up {
                l.usage.up
            } else {
                l.usage.down
            };
            let counted_now = if kind is Up {
                c.usage.up
            } else {
                c.usage.down
            };
            let left = if kind is Up {
                r.usage.up
            } else {
                r.usage.down
            };
            &&& before + bytes <= u64::MAX ==> counted_now == before + bytes
            &&& before + bytes > u64::MAX ==> counted_now == u64::MAX
            &&& bytes <= before ==> left + bytes == before
            &&& bytes > before ==> left == 0
            &&& c.limit == l.limit && r.limit == l.limit
            &&& c.unsaved
            &&& r.usage != l.usage ==> r.unsaved
            &&& bytes == 0 ==> r == l
        }),
{
}

/// The view of a ledger holds the day, the counters and the limit as they are.
pub proof fn law_view_of_a_ledger(m: BandwidthManager)
    ensures
        m@.usage.date == m.stats.date@,
        m@.usage.up == m.stats.up_bytes,
        m@.usage.down == m.stats.down_bytes,
        m@.limit == m.limit,
        m@.unsaved == m.unsaved,
        m.stats@ == m@.usage,
        m.stats.deep_view() == m.stats@,
{
}

} // verus!
