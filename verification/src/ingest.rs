//! Fetching a bill, where no bill can be fetched: a refresh that lands nothing,
//! a replay with nothing to replay, and an import that says why it cannot.
use vstd::prelude::*;

use crate::calendar::BillingPeriod;
use crate::error::Error;
use crate::model::{CloudAccount, PeriodKey};
use crate::text;

verus! {

/// The ledger key an account's period is stored under.
pub fn period_key(account: &CloudAccount, period: &BillingPeriod) -> (res: PeriodKey)
    requires
        period.valid(),
    ensures
        res.provider@ == account.source_id.id@,
        res.account_id@ == account.id@,
        res.billing_period@ == period.text(),
{
    PeriodKey::new(
        account.source_id.as_str().to_owned(),
        account.id.clone(),
        period.label(),
    )
}

/// What one ingest did.
#[derive(Debug)]
pub struct IngestOutcome {
    pub batch_id: String,
    pub charges: usize,
    pub balances: usize,
    /// Where the raw payloads were written, empty where nothing is written.
    pub raw_path: String,
}

/// What one refresh of an account did.
#[derive(Debug)]
pub struct RefreshOutcome {
    /// Each period fetched and landed, by its label.
    pub ingested: Vec<(String, IngestOutcome)>,
    /// Periods left alone because they were ingested recently enough.
    pub skipped_fresh: Vec<String>,
}

impl Default for RefreshOutcome {
    fn default() -> (res: Self)
        ensures
            res.ingested@.len() == 0,
            res.skipped_fresh@.len() == 0,
    {
        RefreshOutcome { ingested: Vec::new(), skipped_fresh: Vec::new() }
    }
}

/// What re-normalizing every stored payload did.
#[derive(Debug)]
pub struct ReplayOutcome {
    /// Periods re-normalized.
    pub periods: usize,
    /// Charges written across them.
    pub charges: usize,
}

impl Default for ReplayOutcome {
    fn default() -> (res: Self)
        ensures
            res.periods == 0,
            res.charges == 0,
    {
        ReplayOutcome { periods: 0, charges: 0 }
    }
}

/// What importing a bill file did.
#[derive(Debug)]
pub struct ImportOutcome {
    /// The format the file was read as.
    pub format: &'static str,
    /// Each billing period the file covered, oldest first.
    pub periods: Vec<(String, IngestOutcome)>,
}

impl Default for ImportOutcome {
    fn default() -> (res: Self)
        ensures
            res.format@ == ""@,
            res.periods@.len() == 0,
    {
        ImportOutcome { format: "", periods: Vec::new() }
    }
}

/// The rows written across periods.
pub open spec fn charges_of(periods: Seq<(String, IngestOutcome)>) -> nat
    decreases periods.len(),
{
    if periods.len() == 0 {
        0
    } else {
        charges_of(periods.drop_last()) + periods.last().1.charges as nat
    }
}

pub open spec fn labels_of(periods: Seq<(String, IngestOutcome)>) -> Seq<Seq<char>> {
    periods.map_values(|p: (String, IngestOutcome)| p.0@)
}

proof fn lemma_charges_grow(periods: Seq<(String, IngestOutcome)>, n: int)
    requires
        0 <= n <= periods.len(),
    ensures
        charges_of(periods.take(n)) <= charges_of(periods),
    decreases periods.len(),
{
    if n < periods.len() {
        lemma_charges_grow(periods.drop_last(), n);
        assert(periods.drop_last().take(n) =~= periods.take(n));
    } else {
        assert(periods.take(n) =~= periods);
    }
}

/// The rows written across periods.
pub fn total_charges(periods: &Vec<(String, IngestOutcome)>) -> (res: usize)
    requires
        charges_of(periods@) <= usize::MAX,
    ensures
        res == charges_of(periods@),
{
    let mut total: usize = 0;
    let mut i: usize = 0;
    proof {
        assert(periods@.take(0) =~= Seq::empty());
    }
    while i < periods.len()
        invariant
            i <= periods.len(),
            charges_of(periods@) <= usize::MAX,
            total == charges_of(periods@.take(i as int)),
        decreases periods.len() - i,
    {
        proof {
            assert(periods@.take(i + 1).drop_last() =~= periods@.take(i as int));
            assert(periods@.take(i + 1).last() == periods@[i as int]);
            lemma_charges_grow(periods@, i + 1);
        }
        total = total + periods[i].1.charges;
        i = i + 1;
    }
    proof {
        assert(periods@.take(i as int) =~= periods@);
    }
    total
}

impl ImportOutcome {
    /// Total rows written across every period the file covered.
    pub fn charges(&self) -> (res: usize)
        requires
            charges_of(self.periods@) <= usize::MAX,
        ensures
            res == charges_of(self.periods@),
    {
        total_charges(&self.periods)
    }

    /// The months the file covered, as the import message lists them.
    pub fn period_labels(&self) -> (res: String)
        ensures
            res@ == text::joined(labels_of(self.periods@), ", "@),
    {
        let mut labels: Vec<String> = Vec::new();
        let mut i: usize = 0;
        while i < self.periods.len()
            invariant
                i <= self.periods.len(),
                text::texts(labels@) == labels_of(self.periods@).take(i as int),
            decreases self.periods.len() - i,
        {
            let ghost before = text::texts(labels@);
            labels.push(self.periods[i].0.clone());
            i = i + 1;
            proof {
                assert(text::texts(labels@) =~= before.push(self.periods@[i - 1].0@));
                assert(text::texts(labels@) =~= labels_of(self.periods@).take(i as int));
            }
        }
        proof {
            assert(text::texts(labels@) =~= labels_of(self.periods@));
        }
        text::join(&labels, ", ")
    }
}

/// Bring an account's ledger up to date. There is nothing to bring: a refresh
/// that ingested no periods and skipped none.
pub fn refresh_account(_account: &CloudAccount, _force: bool) -> (res: Result<RefreshOutcome, Error>)
    ensures
        res is Ok,
        res->Ok_0.ingested@.len() == 0,
        res->Ok_0.skipped_fresh@.len() == 0,
{
    Ok(RefreshOutcome { ingested: Vec::new(), skipped_fresh: Vec::new() })
}

/// Re-normalize every stored payload without fetching anything. There are no
/// stored payloads.
pub fn replay_all() -> (res: Result<ReplayOutcome, Error>)
    ensures
        res is Ok,
        res->Ok_0.periods == 0,
        res->Ok_0.charges == 0,
{
    Ok(ReplayOutcome { periods: 0, charges: 0 })
}

/// Read a bill export the user picked. Refused rather than faked.
pub fn import_bill_file(_account: &CloudAccount, _path: &str) -> (res: Result<ImportOutcome, Error>)
    ensures
        res is Err,
        res->Err_0.message@
            == "The web demo reads no bill files — it ships with demo data already loaded"@,
{
    Err(Error::new("The web demo reads no bill files — it ships with demo data already loaded"))
}

} // verus!
