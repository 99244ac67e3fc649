//! The campaign: its parameters, its ledger of deposits, and its status.

use crate::address::Address;
use crate::amount::{fits, lemma_byte_len_monotone, Amount};
use vstd::prelude::*;

verus! {

/// The outcome of a campaign at a point in time.
#[derive(Clone, Copy, Debug, PartialEq, Eq, Structural)]
pub enum Status {
    /// The deadline has not passed yet.
    FundingPeriod,
    /// The deadline has passed and the funds reach the target.
    Successful,
    /// The deadline has passed and the funds fall short of the target.
    Failed,
}

/// Why a contribution was turned down.
#[derive(Clone, Copy, Debug, PartialEq, Eq, Structural)]
pub enum FundError {
    /// The contribution came at or after the deadline.
    DeadlinePassed,
}

impl FundError {
    /// The reason in words.
    pub fn message(&self) -> (r: &'static str)
        ensures
            r@ == "cannot fund after deadline"@,
    {
        "cannot fund after deadline"
    }
}

/// The outcome at `now` of a campaign with the given deadline and target
/// that holds `funds`. Up to and including the deadline the campaign is in
/// its funding period; after it, the funds decide.
pub open spec fn status_at(now: u64, deadline: u64, funds: nat, target: nat) -> Status {
    if now <= deadline {
        Status::FundingPeriod
    } else if funds >= target {
        Status::Successful
    } else {
        Status::Failed
    }
}

/// Decides whether a contribution offered at `now` is taken: it is strictly
/// before the deadline, and turned down from the deadline on.
pub fn check_funding_window(now: u64, deadline: u64) -> (r: Result<(), FundError>)
    ensures
        r == (if now < deadline {
            Ok::<(), FundError>(())
        } else {
            Err::<(), FundError>(FundError::DeadlinePassed)
        }),
{
    if now < deadline {
        Ok(())
    } else {
        Err(FundError::DeadlinePassed)
    }
}

/// Resolves the outcome at `now` of a campaign with the given deadline and
/// target that holds `funds`.
pub fn resolve_status(now: u64, deadline: u64, funds: &Amount, target: &Amount) -> (r: Status)
    ensures
        r == status_at(now, deadline, funds@, target@),
{
    if now <= deadline {
        Status::FundingPeriod
    } else if funds.at_least(target) {
        Status::Successful
    } else {
        Status::Failed
    }
}

/// What a campaign is, as mathematics: its parameters, what each contributor
/// has deposited, and the funds it holds.
pub struct CampaignState {
    pub target: nat,
    pub deadline: u64,
    pub deposits: Map<Seq<u8>, nat>,
    pub funds: nat,
}

/// One contribution, as mathematics: who gave, how much, and when.
pub struct Contribution {
    pub donor: Seq<u8>,
    pub amount: nat,
    pub now: u64,
}

impl CampaignState {
    /// A campaign that nobody has contributed to yet.
    pub open spec fn fresh(target: nat, deadline: u64) -> CampaignState {
        CampaignState { target, deadline, deposits: Map::empty(), funds: 0 }
    }

    /// What `donor` has deposited so far; zero for one who never gave.
    pub open spec fn deposit_of(self, donor: Seq<u8>) -> nat {
        if self.deposits.dom().contains(donor) {
            self.deposits[donor]
        } else {
            0
        }
    }

    /// The sum of the deposits of the contributors listed in `donors`.
    pub open spec fn deposits_sum(self, donors: Seq<Seq<u8>>) -> nat
        decreases donors.len(),
    {
        if donors.len() == 0 {
            0
        } else {
            self.deposits_sum(donors.drop_last()) + self.deposit_of(donors.last())
        }
    }

    /// Contributions are taken strictly before the deadline.
    pub open spec fn accepts(self, now: u64) -> bool {
        now < self.deadline
    }

    /// The campaign after `amount` was credited to `donor`.
    pub open spec fn credited(self, donor: Seq<u8>, amount: nat) -> CampaignState {
        CampaignState {
            target: self.target,
            deadline: self.deadline,
            deposits: self.deposits.insert(donor, self.deposit_of(donor) + amount),
            funds: self.funds + amount,
        }
    }

    /// The campaign after a contribution offered at `now`: credited while
    /// contributions are taken, untouched otherwise.
    pub open spec fn fund(self, donor: Seq<u8>, amount: nat, now: u64) -> CampaignState {
        if self.accepts(now) {
            self.credited(donor, amount)
        } else {
            self
        }
    }

    /// The outcome at `now`.
    pub open spec fn status(self, now: u64) -> Status {
        status_at(now, self.deadline, self.funds, self.target)
    }

    /// The campaign after a run of contributions, offered in order.
    pub open spec fn fund_all(self, calls: Seq<Contribution>) -> CampaignState
        decreases calls.len(),
    {
        if calls.len() == 0 {
            self
        } else {
            self.fund_all(calls.drop_last()).fund(
                calls.last().donor,
                calls.last().amount,
                calls.last().now,
            )
        }
    }
}

/// The sum of the amounts that `calls` offer under `donor`.
pub open spec fn offered_by(calls: Seq<Contribution>, donor: Seq<u8>) -> nat
    decreases calls.len(),
{
    if calls.len() == 0 {
        0
    } else if calls.last().donor == donor {
        offered_by(calls.drop_last(), donor) + calls.last().amount
    } else {
        offered_by(calls.drop_last(), donor)
    }
}

/// The sum of the amounts that `calls` offer under `donor` strictly before
/// `deadline`.
pub open spec fn taken_from(calls: Seq<Contribution>, deadline: u64, donor: Seq<u8>) -> nat
    decreases calls.len(),
{
    if calls.len() == 0 {
        0
    } else if calls.last().donor == donor && calls.last().now < deadline {
        taken_from(calls.drop_last(), deadline, donor) + calls.last().amount
    } else {
        taken_from(calls.drop_last(), deadline, donor)
    }
}

/// The sum of all the amounts that `calls` offer strictly before `deadline`.
pub open spec fn taken(calls: Seq<Contribution>, deadline: u64) -> nat
    decreases calls.len(),
{
    if calls.len() == 0 {
        0
    } else if calls.last().now < deadline {
        taken(calls.drop_last(), deadline) + calls.last().amount
    } else {
        taken(calls.drop_last(), deadline)
    }
}

/// The sum of all the amounts that `calls` offer.
pub open spec fn offered(calls: Seq<Contribution>) -> nat
    decreases calls.len(),
{
    if calls.len() == 0 {
        0
    } else {
        offered(calls.drop_last()) + calls.last().amount
    }
}

impl CampaignState {
    /// A contribution that comes at or after the deadline changes nothing:
    /// no deposit, not the funds held, not the parameters.
    pub proof fn lemma_late_fund_changes_nothing(self, donor: Seq<u8>, amount: nat, now: u64)
        requires
            now >= self.deadline,
        ensures
            self.fund(donor, amount, now) == self,
    {
    }

    /// A contribution that comes before the deadline raises the donor's
    /// deposit and the funds held by exactly the amount given, and leaves
    /// every other contributor's deposit and the parameters as they were.
    pub proof fn lemma_fund_adds_amount(
        self,
        donor: Seq<u8>,
        amount: nat,
        now: u64,
        other: Seq<u8>,
    )
        requires
            now < self.deadline,
        ensures
            self.fund(donor, amount, now).deposit_of(donor) == self.deposit_of(donor) + amount,
            self.fund(donor, amount, now).deposit_of(donor) >= self.deposit_of(donor),
            other != donor ==> self.fund(donor, amount, now).deposit_of(other) == self.deposit_of(
                other,
            ),
            self.fund(donor, amount, now).funds == self.funds + amount,
            self.fund(donor, amount, now).target == self.target,
            self.fund(donor, amount, now).deadline == self.deadline,
    {
    }

    /// No contribution, taken or turned down, ever lowers a deposit or the
    /// funds held.
    pub proof fn lemma_fund_never_lowers(
        self,
        donor: Seq<u8>,
        amount: nat,
        now: u64,
        other: Seq<u8>,
    )
        ensures
            self.fund(donor, amount, now).deposit_of(other) >= self.deposit_of(other),
            self.fund(donor, amount, now).funds >= self.funds,
    {
    }

    /// After a run of contributions that all come before the deadline, each
    /// contributor's deposit is what it was plus the sum of the amounts that
    /// the run offers under their name, and the funds held are what they
    /// were plus the sum of all the amounts; the parameters are unchanged.
    pub proof fn lemma_fund_all_sums(self, calls: Seq<Contribution>, donor: Seq<u8>)
        requires
            forall|i: int| 0 <= i < calls.len() ==> calls[i].now < self.deadline,
        ensures
            self.fund_all(calls).deposit_of(donor) == self.deposit_of(donor) + offered_by(
                calls,
                donor,
            ),
            self.fund_all(calls).funds == self.funds + offered(calls),
            self.fund_all(calls).target == self.target,
            self.fund_all(calls).deadline == self.deadline,
        decreases calls.len(),
    {
        if calls.len() > 0 {
            let earlier = calls.drop_last();
            self.lemma_fund_all_sums(earlier, donor);
            self.fund_all(earlier).lemma_fund_adds_amount(
                calls.last().donor,
                calls.last().amount,
                calls.last().now,
                donor,
            );
        }
    }

    /// After any run of contributions, timely or late, each contributor's
    /// deposit is what it was plus the sum of the amounts offered under
    /// their name before the deadline, and the funds held are what they
    /// were plus the sum of all the amounts offered before the deadline.
    pub proof fn lemma_fund_all_takes_the_timely(self, calls: Seq<Contribution>, donor: Seq<u8>)
        ensures
            self.fund_all(calls).deposit_of(donor) == self.deposit_of(donor) + taken_from(
                calls,
                self.deadline,
                donor,
            ),
            self.fund_all(calls).funds == self.funds + taken(calls, self.deadline),
            self.fund_all(calls).target == self.target,
            self.fund_all(calls).deadline == self.deadline,
        decreases calls.len(),
    {
        if calls.len() > 0 {
            self.lemma_fund_all_takes_the_timely(calls.drop_last(), donor);
        }
    }

    /// A run of contributions that all come at or after the deadline
    /// changes nothing.
    pub proof fn lemma_late_run_changes_nothing(self, calls: Seq<Contribution>)
        requires
            forall|i: int| 0 <= i < calls.len() ==> calls[i].now >= self.deadline,
        ensures
            self.fund_all(calls) == self,
        decreases calls.len(),
    {
        if calls.len() > 0 {
            self.lemma_late_run_changes_nothing(calls.drop_last());
        }
    }

    /// The outcome is final once the deadline has passed: whatever is
    /// offered from then on, and whenever the status is asked after the
    /// deadline, the answer is the same.
    pub proof fn lemma_status_is_final(
        self,
        calls: Seq<Contribution>,
        first: u64,
        second: u64,
    )
        requires
            first > self.deadline,
            second > self.deadline,
            forall|i: int| 0 <= i < calls.len() ==> calls[i].now >= self.deadline,
        ensures
            self.fund_all(calls).status(second) == self.status(first),
    {
        self.lemma_late_run_changes_nothing(calls);
    }

    /// Every read is a function of the state and of its arguments alone:
    /// where nothing was contributed in between, so that the state is the
    /// same, reading again gives the same answer.
    pub proof fn lemma_reads_repeat(self, again: CampaignState, donor: Seq<u8>, now: u64)
        requires
            again == self,
        ensures
            again.target == self.target,
            again.deadline == self.deadline,
            again.deposit_of(donor) == self.deposit_of(donor),
            again.funds == self.funds,
            again.status(now) == self.status(now),
    {
    }

    /// Up to and including the deadline a campaign is in its funding
    /// period, whatever it holds; after the deadline it is successful
    /// exactly when the funds held reach the target, and failed otherwise.
    pub proof fn lemma_status_cases(self, now: u64)
        ensures
            now <= self.deadline ==> self.status(now) == Status::FundingPeriod,
            now > self.deadline && self.funds >= self.target ==> self.status(now)
                == Status::Successful,
            now > self.deadline && self.funds < self.target ==> self.status(now) == Status::Failed,
    {
    }
}

/// One line of the ledger: a contributor and what they have deposited.
struct Entry {
    donor: Address,
    amount: Amount,
}

/// The ledger that a list of entries spells, later entries winning.
spec fn ledger_of(entries: Seq<Entry>) -> Map<Seq<u8>, nat>
    decreases entries.len(),
{
    if entries.len() == 0 {
        Map::empty()
    } else {
        ledger_of(entries.drop_last()).insert(entries.last().donor@, entries.last().amount@)
    }
}

/// The sum of the deposits in a list of entries.
spec fn total_of(entries: Seq<Entry>) -> nat
    decreases entries.len(),
{
    if entries.len() == 0 {
        0
    } else {
        total_of(entries.drop_last()) + entries.last().amount@
    }
}

/// No contributor has two entries.
spec fn distinct_donors(entries: Seq<Entry>) -> bool {
    forall|i: int, j: int|
        0 <= i < j < entries.len() ==> entries[i].donor@ != entries[j].donor@
}

proof fn lemma_absent(entries: Seq<Entry>, donor: Seq<u8>)
    requires
        forall|i: int| 0 <= i < entries.len() ==> entries[i].donor@ != donor,
    ensures
        !ledger_of(entries).dom().contains(donor),
    decreases entries.len(),
{
    if entries.len() > 0 {
        lemma_absent(entries.drop_last(), donor);
    }
}

proof fn lemma_present(entries: Seq<Entry>, i: int)
    requires
        distinct_donors(entries),
        0 <= i < entries.len(),
    ensures
        ledger_of(entries).dom().contains(entries[i].donor@),
        ledger_of(entries)[entries[i].donor@] == entries[i].amount@,
    decreases entries.len(),
{
    if i < entries.len() - 1 {
        lemma_present(entries.drop_last(), i);
    }
}

proof fn lemma_entry_within_total(entries: Seq<Entry>, i: int)
    requires
        0 <= i < entries.len(),
    ensures
        entries[i].amount@ <= total_of(entries),
    decreases entries.len(),
{
    if i < entries.len() - 1 {
        lemma_entry_within_total(entries.drop_last(), i);
    }
}

proof fn lemma_replace(entries: Seq<Entry>, i: int, entry: Entry)
    requires
        distinct_donors(entries),
        0 <= i < entries.len(),
        entry.donor@ == entries[i].donor@,
    ensures
        distinct_donors(entries.update(i, entry)),
        ledger_of(entries.update(i, entry)) == ledger_of(entries).insert(
            entry.donor@,
            entry.amount@,
        ),
        total_of(entries.update(i, entry)) + entries[i].amount@ == total_of(entries)
            + entry.amount@,
    decreases entries.len(),
{
    let after = entries.update(i, entry);
    if i < entries.len() - 1 {
        lemma_replace(entries.drop_last(), i, entry);
        assert(after.drop_last() =~= entries.drop_last().update(i, entry));
        assert(ledger_of(after) =~= ledger_of(entries).insert(entry.donor@, entry.amount@));
    } else {
        assert(after.drop_last() =~= entries.drop_last());
        assert(ledger_of(after) =~= ledger_of(entries).insert(entry.donor@, entry.amount@));
    }
}

proof fn lemma_total_is_sum(entries: Seq<Entry>, state: CampaignState, donors: Seq<Seq<u8>>)
    requires
        donors.len() == entries.len(),
        forall|i: int| 0 <= i < entries.len() ==> state.deposit_of(donors[i]) == entries[i].amount@,
    ensures
        total_of(entries) == state.deposits_sum(donors),
    decreases entries.len(),
{
    if entries.len() > 0 {
        lemma_total_is_sum(entries.drop_last(), state, donors.drop_last());
    }
}

/// A crowdfunding campaign: a target, a deadline, a ledger of deposits by
/// contributor, and the funds held, which are the sum of the ledger.
pub struct Crowdfunding {
    target: Amount,
    deadline: u64,
    entries: Vec<Entry>,
    funds: Amount,
}

impl View for Crowdfunding {
    type V = CampaignState;

    closed spec fn view(&self) -> CampaignState {
        CampaignState {
            target: self.target@,
            deadline: self.deadline,
            deposits: ledger_of(self.entries@),
            funds: self.funds@,
        }
    }
}

impl Crowdfunding {
    /// The contributors, in the order of their first contribution.
    pub closed spec fn donors(&self) -> Seq<Seq<u8>> {
        Seq::new(self.entries@.len(), |i: int| self.entries@[i].donor@)
    }

    /// A campaign is well formed when no contributor has two ledger entries
    /// and the funds held are the sum of the deposits.
    pub closed spec fn wf(&self) -> bool {
        &&& distinct_donors(self.entries@)
        &&& self.funds@ == total_of(self.entries@)
    }

    /// In a well-formed campaign the funds held are the sum of all the
    /// deposits: the contributors are listed once each, they are exactly
    /// those with a deposit in the ledger, and the deposits of those listed
    /// add up to the funds.
    pub proof fn lemma_funds_are_sum_of_deposits(&self)
        requires
            self.wf(),
        ensures
            self.donors().no_duplicates(),
            forall|d: Seq<u8>| self@.deposits.dom().contains(d) <==> self.donors().contains(d),
            self@.funds == self@.deposits_sum(self.donors()),
    {
        let entries = self.entries@;
        let donors = self.donors();
        assert forall|d: Seq<u8>| self@.deposits.dom().contains(d) <==> donors.contains(d) by {
            if donors.contains(d) {
                let i = choose|i: int| 0 <= i < donors.len() && donors[i] == d;
                lemma_present(entries, i);
            } else {
                assert forall|i: int| 0 <= i < entries.len() implies entries[i].donor@ != d by {
                    assert(donors[i] == entries[i].donor@);
                }
                lemma_absent(entries, d);
            }
        }
        assert forall|i: int| 0 <= i < entries.len() implies self@.deposit_of(donors[i])
            == entries[i].amount@ by {
            lemma_present(entries, i);
        }
        lemma_total_is_sum(entries, self@, donors);
    }

    /// Creates the campaign with its target and deadline. Neither is checked
    /// against the other or against the clock.
    pub fn init(target: Amount, deadline: u64) -> (r: Crowdfunding)
        ensures
            r.wf(),
            r@ == CampaignState::fresh(target@, deadline),
    {
        Crowdfunding { target, deadline, entries: Vec::new(), funds: Amount::zero() }
    }

    /// The funding goal.
    pub fn target(&self) -> (r: Amount)
        ensures
            r@ == self@.target,
            fits(r@),
    {
        self.target.clone()
    }

    /// The time from which contributions are no longer taken.
    pub fn deadline(&self) -> (r: u64)
        ensures
            r == self@.deadline,
    {
        self.deadline
    }

    /// Where `donor` stands in the ledger, if anywhere.
    fn find(&self, donor: &Address) -> (r: Option<usize>)
        ensures
            match r {
                Some(i) => i < self.entries@.len() && self.entries@[i as int].donor@ == donor@,
                None => forall|i: int|
                    0 <= i < self.entries@.len() ==> self.entries@[i].donor@ != donor@,
            },
    {
        let mut i: usize = 0;
        while i < self.entries.len()
            invariant
                i <= self.entries@.len(),
                forall|j: int| 0 <= j < i ==> self.entries@[j].donor@ != donor@,
            decreases self.entries@.len() - i,
        {
            if self.entries[i].donor.same_as(donor) {
                return Some(i);
            }
            i += 1;
        }
        None
    }

    /// What `donor` has deposited so far; zero for one who never gave.
    pub fn deposit(&self, donor: &Address) -> (r: Amount)
        requires
            self.wf(),
        ensures
            r@ == self@.deposit_of(donor@),
            fits(r@),
    {
        match self.find(donor) {
            Some(i) => {
                proof {
                    lemma_present(self.entries@, i as int);
                }
                self.entries[i].amount.clone()
            },
            None => {
                proof {
                    lemma_absent(self.entries@, donor@);
                }
                Amount::zero()
            },
        }
    }

    /// Whether the campaign can take `payment`: the funds held, with the
    /// payment added, are still an amount that can be held.
    pub fn can_take(&self, payment: &Amount) -> (r: bool)
        ensures
            r == fits(self@.funds + payment@),
    {
        self.funds.checked_plus(payment).is_some()
    }

    /// Adds `payment` to the deposit of `donor` and to the funds held,
    /// whatever the time. The funds with the payment added must be an
    /// amount that can be held, which `can_take` tests.
    pub fn credit(&mut self, donor: &Address, payment: Amount)
        requires
            old(self).wf(),
            fits(old(self)@.funds + payment@),
        ensures
            final(self).wf(),
            final(self)@ == old(self)@.credited(donor@, payment@),
    {
        let funds = self.funds.plus(&payment);
        match self.find(donor) {
            Some(i) => {
                proof {
                    lemma_entry_within_total(self.entries@, i as int);
                    lemma_byte_len_monotone(
                        self.entries@[i as int].amount@ + payment@,
                        self.funds@ + payment@,
                    );
                }
                let sum = self.entries[i].amount.plus(&payment);
                let entry = Entry { donor: *donor, amount: sum };
                proof {
                    lemma_present(self.entries@, i as int);
                    lemma_replace(self.entries@, i as int, entry);
                }
                self.entries.set(i, entry);
            },
            None => {
                let entry = Entry { donor: *donor, amount: payment };
                proof {
                    lemma_absent(self.entries@, donor@);
                    assert(self.entries@.push(entry).drop_last() =~= self.entries@);
                }
                self.entries.push(entry);
            },
        }
        self.funds = funds;
    }

    /// Records a contribution of `payment` by `caller`, offered at `now`.
    ///
    /// Strictly before the deadline the payment is added to the caller's
    /// deposit and to the funds held. At or after the deadline the
    /// contribution is turned down and nothing changes. Where the
    /// contribution is timely, the funds with the payment added must be an
    /// amount that can be held, which `can_take` tests.
    pub fn fund(&mut self, caller: &Address, payment: Amount, now: u64) -> (r: Result<
        (),
        FundError,
    >)
        requires
            old(self).wf(),
            now < old(self)@.deadline ==> fits(old(self)@.funds + payment@),
        ensures
            final(self).wf(),
            final(self)@ == old(self)@.fund(caller@, payment@, now),
            r == (if now < old(self)@.deadline {
                Ok::<(), FundError>(())
            } else {
                Err::<(), FundError>(FundError::DeadlinePassed)
            }),
            r is Err ==> *final(self) == *old(self),
    {
        match check_funding_window(now, self.deadline) {
            Ok(()) => {
                self.credit(caller, payment);
                Ok(())
            },
            Err(e) => Err(e),
        }
    }

    /// The outcome of the campaign at `now`.
    ///
    /// Up to and including the deadline the campaign is in its funding
    /// period, whatever it holds. After the deadline it is successful when
    /// the funds held reach the target, and failed otherwise.
    pub fn status(&self, now: u64) -> (r: Status)
        ensures
            r == self@.status(now),
            now <= self@.deadline ==> r == Status::FundingPeriod,
            now > self@.deadline ==> (r == Status::Successful <==> self@.funds >= self@.target),
            now > self@.deadline ==> (r == Status::Failed <==> self@.funds < self@.target),
    {
        resolve_status(now, self.deadline, &self.funds, &self.target)
    }

    /// The funds that the campaign holds.
    pub fn get_current_funds(&self) -> (r: Amount)
        ensures
            r@ == self@.funds,
            fits(r@),
    {
        self.funds.clone()
    }
}

} // verus!
