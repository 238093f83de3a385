//! What holds of voting power as a whole.
//!
//! While no amount saturates, the weight that an address received is exactly
//! what its delegators have locked. It follows that delegation neither makes
//! votes nor loses any.

use crate::address::Address;
use crate::env::{empty_env, EnvView, PersistentView};
use crate::governance::VotingKey;
use crate::plan::PlanLimits;
use vstd::prelude::*;

verus! {

/// The sum of `amount` over a finite set of addresses.
pub open spec fn sum_over(holders: Set<Address>, amount: spec_fn(Address) -> int) -> int
    decreases holders.len(),
    when holders.finite()
{
    if holders.len() == 0 {
        0
    } else {
        let one = holders.choose();
        amount(one) + sum_over(holders.remove(one), amount)
    }
}

proof fn lemma_sum_without(holders: Set<Address>, amount: spec_fn(Address) -> int, one: Address)
    requires
        holders.finite(),
        holders.contains(one),
    ensures
        sum_over(holders, amount) == amount(one) + sum_over(holders.remove(one), amount),
    decreases holders.len(),
{
    let chosen = holders.choose();
    assert(holders.contains(chosen));
    if chosen != one {
        lemma_sum_without(holders.remove(chosen), amount, one);
        lemma_sum_without(holders.remove(one), amount, chosen);
        assert(holders.remove(chosen).remove(one) =~= holders.remove(one).remove(chosen));
    }
}

proof fn lemma_sum_with(holders: Set<Address>, amount: spec_fn(Address) -> int, one: Address)
    requires
        holders.finite(),
        !holders.contains(one),
    ensures
        sum_over(holders.insert(one), amount) == amount(one) + sum_over(holders, amount),
{
    lemma_sum_without(holders.insert(one), amount, one);
    assert(holders.insert(one).remove(one) =~= holders);
}

proof fn lemma_sum_of_equals(
    holders: Set<Address>,
    left: spec_fn(Address) -> int,
    right: spec_fn(Address) -> int,
)
    requires
        holders.finite(),
        forall|one: Address| holders.contains(one) ==> #[trigger] left(one) == right(one),
    ensures
        sum_over(holders, left) == sum_over(holders, right),
    decreases holders.len(),
{
    if holders.len() > 0 {
        let one = holders.choose();
        assert(holders.contains(one));
        assert(left(one) == right(one));
        lemma_sum_of_equals(holders.remove(one), left, right);
    }
}

proof fn lemma_sum_is_no_less(
    holders: Set<Address>,
    amount: spec_fn(Address) -> int,
)
    requires
        holders.finite(),
        forall|one: Address| holders.contains(one) ==> #[trigger] amount(one) >= 0,
    ensures
        sum_over(holders, amount) >= 0,
        forall|one: Address| holders.contains(one) ==> sum_over(holders, amount) >= #[trigger] amount(
            one,
        ),
    decreases holders.len(),
{
    if holders.len() > 0 {
        let chosen = holders.choose();
        assert(holders.contains(chosen));
        assert(amount(chosen) >= 0);
        lemma_sum_is_no_less(holders.remove(chosen), amount);
        assert forall|one: Address| holders.contains(one) implies sum_over(holders, amount)
            >= #[trigger] amount(one) by {
            if one != chosen {
                assert(holders.remove(chosen).contains(one));
            }
        }
    }
}

proof fn lemma_sum_of_disjoint(
    left: Set<Address>,
    right: Set<Address>,
    amount: spec_fn(Address) -> int,
)
    requires
        left.finite(),
        right.finite(),
        left.disjoint(right),
    ensures
        sum_over(left.union(right), amount) == sum_over(left, amount) + sum_over(right, amount),
    decreases left.len(),
{
    if left.len() == 0 {
        assert(left.union(right) =~= right);
    } else {
        let one = left.choose();
        assert(left.contains(one));
        lemma_sum_of_disjoint(left.remove(one), right, amount);
        assert(left.union(right).remove(one) =~= left.remove(one).union(right));
        lemma_sum_without(left.union(right), amount, one);
    }
}

impl EnvView {
    /// The addresses whose delegate is `holder`.
    pub open spec fn delegators_of(self, holder: Address) -> Set<Address> {
        Set::new(|delegator: Address| self.delegate_of(delegator) == Some(holder))
    }

    /// What the delegators of `holder` have locked, together.
    pub open spec fn weight_behind(self, holder: Address) -> int {
        sum_over(
            self.delegators_of(holder),
            |delegator: Address| self.locked_value(delegator) as int,
        )
    }

    /// Whether the delegation records are in order: nobody has delegated to
    /// themselves, and everybody has received what their delegators have locked.
    pub open spec fn accounted(self) -> bool {
        &&& forall|one: Address| #[trigger] self.delegate_of(one) != Some(one)
        &&& forall|one: Address| (#[trigger] self.delegators_of(one)).finite()
        &&& forall|one: Address| #[trigger] self.delegated_power(one) == self.weight_behind(one)
    }

    /// Whether no weight is too large to be recorded.
    pub open spec fn unsaturated(self) -> bool {
        forall|one: Address| #[trigger] self.weight_behind(one) <= u128::MAX
    }
}

proof fn lemma_locked_weight(env: EnvView, holder: Address)
    requires
        env.delegators_of(holder).finite(),
    ensures
        env.weight_behind(holder) >= 0,
        forall|one: Address|
            env.delegate_of(one) == Some(holder) ==> env.weight_behind(holder)
                >= #[trigger] env.locked_value(one),
{
    let amount = |delegator: Address| env.locked_value(delegator) as int;
    lemma_sum_is_no_less(env.delegators_of(holder), amount);
    assert forall|one: Address| env.delegate_of(one) == Some(holder) implies env.weight_behind(
        holder,
    ) >= #[trigger] env.locked_value(one) by {
        assert(env.delegators_of(holder).contains(one));
        assert(amount(one) == env.locked_value(one));
    }
}

/// The records are in order before anything is recorded.
pub proof fn empty_records_are_accounted(timestamp: u64, limits: PlanLimits)
    ensures
        empty_env(timestamp, limits).accounted(),
{
    let env = empty_env(timestamp, limits);
    assert forall|one: Address| (#[trigger] env.delegators_of(one)).finite() by {
        assert(env.delegators_of(one) =~= Set::empty());
    }
    assert forall|one: Address| #[trigger] env.delegated_power(one) == env.weight_behind(one) by {
        assert(env.delegators_of(one) =~= Set::empty());
    }
}

/// Locking and unlocking value keeps the records in order.
pub proof fn relocking_keeps_the_accounts(env: EnvView, user: Address, amount: u128)
    requires
        env.accounted(),
        env.relocked(user, amount).unsaturated(),
    ensures
        env.relocked(user, amount).accounted(),
{
    let after = env.relocked(user, amount);
    let target = env.votes_for(user);
    let before_locked = |one: Address| env.locked_value(one) as int;
    let after_locked = |one: Address| after.locked_value(one) as int;
    assert forall|one: Address| #[trigger] after.delegate_of(one) == env.delegate_of(one) by {}
    assert(after.locked_value(user) == amount);
    assert forall|one: Address| one != user implies #[trigger] after.locked_value(one)
        == env.locked_value(one) by {}
    assert forall|one: Address| (#[trigger] after.delegators_of(one)).finite() by {
        assert(after.delegators_of(one) =~= env.delegators_of(one));
    }
    assert forall|one: Address| #[trigger] after.delegated_power(one) == after.weight_behind(
        one,
    ) by {
        let delegators = env.delegators_of(one);
        assert(after.delegators_of(one) =~= delegators);
        assert(env.delegated_power(one) == env.weight_behind(one));
        assert(after.weight_behind(one) <= u128::MAX);
        if delegators.contains(user) {
            assert(one == target && one != user);
            lemma_sum_without(delegators, before_locked, user);
            lemma_sum_without(delegators, after_locked, user);
            lemma_sum_of_equals(delegators.remove(user), before_locked, after_locked);
            lemma_locked_weight(env, one);
            assert(after.weight_behind(one) == env.weight_behind(one) - env.locked_value(user)
                + amount);
        } else {
            assert(env.delegate_of(user) != Some(one));
            lemma_sum_of_equals(delegators, before_locked, after_locked);
            assert(target == user || one != target);
        }
    }
}

/// Delegating keeps the records in order.
pub proof fn delegating_keeps_the_accounts(env: EnvView, delegator: Address, delegate: Address)
    requires
        env.accounted(),
        env.delegated(delegator, delegate).unsaturated(),
    ensures
        env.delegated(delegator, delegate).accounted(),
{
    if delegate != delegator && env.delegate_of(delegator) != Some(delegate) {
        let after = env.delegated(delegator, delegate);
        let source = env.votes_for(delegator);
        let locked = env.locked_value(delegator);
        let before_locked = |one: Address| env.locked_value(one) as int;
        let after_locked = |one: Address| after.locked_value(one) as int;
        assert(env.delegate_of(delegator) != Some(delegator));
        assert forall|one: Address| one != delegator implies #[trigger] after.delegate_of(one)
            == env.delegate_of(one) by {}
        assert(after.delegate_of(delegator) == Some(delegate));
        assert forall|one: Address| #[trigger] after.locked_value(one) == env.locked_value(
            one,
        ) by {}
        assert forall|one: Address|
            (#[trigger] after.delegators_of(one)).finite() && after.delegated_power(one)
                == after.weight_behind(one) by {
            let delegators = env.delegators_of(one);
            assert(delegators.finite());
            assert(env.delegated_power(one) == env.weight_behind(one));
            if one == delegate {
                assert(after.delegators_of(one) =~= delegators.insert(delegator));
                lemma_sum_with(delegators, after_locked, delegator);
                lemma_sum_of_equals(delegators, before_locked, after_locked);
                lemma_locked_weight(env, one);
                assert(after.weight_behind(one) == env.weight_behind(one) + locked);
                assert(after.weight_behind(one) <= u128::MAX);
            } else if env.delegate_of(delegator) == Some(one) {
                assert(source == one);
                assert(after.delegators_of(one) =~= delegators.remove(delegator));
                lemma_sum_without(delegators, before_locked, delegator);
                lemma_sum_of_equals(delegators.remove(delegator), before_locked, after_locked);
                lemma_locked_weight(env, one);
            } else {
                assert(after.delegators_of(one) =~= delegators);
                lemma_sum_of_equals(delegators, before_locked, after_locked);
            }
        }
        assert forall|one: Address| #[trigger] after.delegated_power(one) == after.weight_behind(
            one,
        ) by {
            assert(after.delegators_of(one).finite());
        }
    }
}

/// Taking a delegation back keeps the records in order.
pub proof fn undelegating_keeps_the_accounts(env: EnvView, delegator: Address)
    requires
        env.accounted(),
    ensures
        env.undelegated(delegator).accounted(),
{
    if env.delegate_of(delegator) is Some {
        let after = env.undelegated(delegator);
        let source = env.delegate_of(delegator).unwrap();
        let before_locked = |one: Address| env.locked_value(one) as int;
        let after_locked = |one: Address| after.locked_value(one) as int;
        assert(env.delegate_of(delegator) != Some(delegator));
        assert forall|one: Address| one != delegator implies #[trigger] after.delegate_of(one)
            == env.delegate_of(one) by {}
        assert(after.delegate_of(delegator) is None);
        assert forall|one: Address| #[trigger] after.locked_value(one) == env.locked_value(
            one,
        ) by {}
        assert forall|one: Address|
            (#[trigger] after.delegators_of(one)).finite() && after.delegated_power(one)
                == after.weight_behind(one) by {
            let delegators = env.delegators_of(one);
            assert(delegators.finite());
            assert(env.delegated_power(one) == env.weight_behind(one));
            if one == source {
                assert(after.delegators_of(one) =~= delegators.remove(delegator));
                lemma_sum_without(delegators, before_locked, delegator);
                lemma_sum_of_equals(delegators.remove(delegator), before_locked, after_locked);
                lemma_locked_weight(env, one);
            } else {
                assert(after.delegators_of(one) =~= delegators);
                lemma_sum_of_equals(delegators, before_locked, after_locked);
            }
        }
        assert forall|one: Address| #[trigger] after.delegated_power(one) == after.weight_behind(
            one,
        ) by {
            assert(after.delegators_of(one).finite());
        }
    }
}

proof fn lemma_sum_of_sums(
    holders: Set<Address>,
    left: spec_fn(Address) -> int,
    right: spec_fn(Address) -> int,
    both: spec_fn(Address) -> int,
)
    requires
        holders.finite(),
        forall|one: Address| holders.contains(one) ==> #[trigger] both(one) == left(one) + right(one),
    ensures
        sum_over(holders, both) == sum_over(holders, left) + sum_over(holders, right),
    decreases holders.len(),
{
    if holders.len() > 0 {
        let one = holders.choose();
        assert(holders.contains(one));
        assert(both(one) == left(one) + right(one));
        lemma_sum_of_sums(holders.remove(one), left, right, both);
    }
}

/// A sum over some of the holders is the sum over all in which the others count
/// for nothing.
proof fn lemma_sum_of_some(
    holders: Set<Address>,
    some: Set<Address>,
    amount: spec_fn(Address) -> int,
    masked: spec_fn(Address) -> int,
)
    requires
        holders.finite(),
        some.subset_of(holders),
        forall|one: Address|
            holders.contains(one) ==> #[trigger] masked(one) == if some.contains(one) {
                amount(one)
            } else {
                0
            },
    ensures
        some.finite(),
        sum_over(holders, masked) == sum_over(some, amount),
    decreases holders.len(),
{
    if holders.len() == 0 {
        assert(some =~= Set::empty());
    } else {
        let one = holders.choose();
        assert(holders.contains(one));
        assert(masked(one) == if some.contains(one) {
            amount(one)
        } else {
            0
        });
        lemma_sum_of_some(holders.remove(one), some.remove(one), amount, masked);
        if some.contains(one) {
            assert(some =~= some.remove(one).insert(one));
            lemma_sum_with(some.remove(one), amount, one);
        } else {
            assert(some.remove(one) =~= some);
        }
    }
}

/// The addresses whose delegate is one of `holders`.
spec fn delegators_of_all(env: EnvView, holders: Set<Address>) -> Set<Address> {
    Set::new(
        |delegator: Address|
            env.delegate_of(delegator) is Some && holders.contains(
                env.delegate_of(delegator).unwrap(),
            ),
    )
}

proof fn lemma_weight_behind_all(env: EnvView, holders: Set<Address>)
    requires
        holders.finite(),
        env.accounted(),
    ensures
        delegators_of_all(env, holders).finite(),
        sum_over(holders, |one: Address| env.weight_behind(one)) == sum_over(
            delegators_of_all(env, holders),
            |one: Address| env.locked_value(one) as int,
        ),
    decreases holders.len(),
{
    let locked = |one: Address| env.locked_value(one) as int;
    if holders.len() == 0 {
        assert(delegators_of_all(env, holders) =~= Set::empty());
    } else {
        let one = holders.choose();
        assert(holders.contains(one));
        let rest = holders.remove(one);
        lemma_weight_behind_all(env, rest);
        assert(env.delegators_of(one).finite());
        assert(delegators_of_all(env, holders) =~= env.delegators_of(one).union(
            delegators_of_all(env, rest),
        ));
        lemma_sum_of_disjoint(env.delegators_of(one), delegators_of_all(env, rest), locked);
    }
}

/// Delegation neither makes votes nor loses any: among holders who delegate to
/// and receive from one another only, there are as many votes as there is value
/// locked.
pub proof fn votes_are_conserved(env: EnvView, holders: Set<Address>)
    requires
        env.accounted(),
        holders.finite(),
        forall|one: Address|
            holders.contains(one) <==> holders.contains(#[trigger] env.votes_for(one)),
        forall|one: Address|
            #[trigger] holders.contains(one) ==> env.locked_value(one) + env.delegated_power(one)
                <= u128::MAX,
    ensures
        sum_over(holders, |one: Address| env.voting_power(one) as int) == sum_over(
            holders,
            |one: Address| env.locked_value(one) as int,
        ),
{
    let locked = |one: Address| env.locked_value(one) as int;
    let power = |one: Address| env.voting_power(one) as int;
    let weight = |one: Address| env.weight_behind(one);
    let own = |one: Address|
        if env.delegate_of(one) is Some {
            0
        } else {
            env.locked_value(one) as int
        };
    let away = |one: Address|
        if env.delegate_of(one) is Some {
            env.locked_value(one) as int
        } else {
            0
        };
    assert forall|one: Address| holders.contains(one) implies #[trigger] power(one) == own(one)
        + weight(one) by {
        assert(env.delegated_power(one) == env.weight_behind(one));
    }
    lemma_sum_of_sums(holders, own, weight, power);
    lemma_sum_of_sums(holders, own, away, locked);
    lemma_weight_behind_all(env, holders);
    let delegators = delegators_of_all(env, holders);
    assert forall|one: Address| #[trigger] delegators.contains(one) <==> holders.contains(one)
        && env.delegate_of(one) is Some by {
        assert(holders.contains(one) <==> holders.contains(env.votes_for(one)));
    }
    lemma_sum_of_some(holders, delegators, locked, away);
}

/// Without delegations, one unit of locked value is one vote.
pub proof fn locked_value_is_votes(env: EnvView, user: Address)
    requires
        env.delegate_of(user) is None,
        env.delegated_power(user) == 0,
    ensures
        env.voting_power(user) == env.locked_value(user),
{
}

/// A delegator's own locked value does not count for themselves.
pub proof fn delegators_keep_no_weight(env: EnvView, user: Address)
    requires
        env.delegate_of(user) is Some,
    ensures
        env.voting_power(user) == env.delegated_power(user),
{
}

/// Delegating moves the whole weight: the delegator keeps their locked value and
/// no longer counts it, the new delegate counts it in full, the previous
/// delegate no longer does, and nobody else's power changes.
pub proof fn delegating_moves_the_weight(env: EnvView, delegator: Address, delegate: Address)
    requires
        env.accounted(),
        delegate != delegator,
        env.delegate_of(delegator) != Some(delegate),
        env.locked_value(delegate) + env.delegated_power(delegate) + env.locked_value(delegator)
            <= u128::MAX,
    ensures
        ({
            let after = env.delegated(delegator, delegate);
            let locked = env.locked_value(delegator);
            &&& after.delegate_of(delegator) == Some(delegate)
            &&& after.locked_value(delegator) == locked
            &&& after.voting_power(delegator) == env.delegated_power(delegator)
            &&& after.voting_power(delegate) == env.voting_power(delegate) + locked
            &&& env.delegate_of(delegator) matches Some(previous) ==> after.delegated_power(previous)
                == env.delegated_power(previous) - locked
            &&& forall|one: Address|
                one != delegator && one != delegate && env.delegate_of(delegator) != Some(one)
                    ==> #[trigger] after.voting_power(one) == env.voting_power(one)
        }),
{
    assert(env.delegate_of(delegator) != Some(delegator));
    if let Some(previous) = env.delegate_of(delegator) {
        lemma_locked_weight(env, previous);
        assert(env.delegators_of(previous).finite());
        assert(env.delegated_power(previous) == env.weight_behind(previous));
    }
}

/// Taking a delegation back returns the whole weight to the holder.
pub proof fn undelegating_returns_the_weight(env: EnvView, delegator: Address)
    requires
        env.accounted(),
        env.delegate_of(delegator) is Some,
        env.locked_value(delegator) + env.delegated_power(delegator) <= u128::MAX,
    ensures
        ({
            let after = env.undelegated(delegator);
            let locked = env.locked_value(delegator);
            let previous = env.delegate_of(delegator).unwrap();
            &&& after.delegate_of(delegator) is None
            &&& after.locked_value(delegator) == locked
            &&& after.voting_power(delegator) == env.voting_power(delegator) + locked
            &&& after.delegated_power(previous) == env.delegated_power(previous) - locked
            &&& forall|one: Address|
                one != delegator && one != previous ==> #[trigger] after.voting_power(one)
                    == env.voting_power(one)
        }),
{
    let previous = env.delegate_of(delegator).unwrap();
    assert(env.delegate_of(delegator) != Some(delegator));
    assert(env.delegators_of(previous).finite());
    lemma_locked_weight(env, previous);
    assert(env.delegated_power(previous) == env.weight_behind(previous));
}

/// Taking a fresh delegation back undoes it: every entry is as it was, and everybody
/// has the power they had. The one difference is that a zero recorded as what the
/// delegate received gives way to no entry.
pub proof fn undelegating_undoes_delegating(env: EnvView, delegator: Address, delegate: Address)
    requires
        env.delegate_of(delegator) is None,
        delegate != delegator,
        env.delegated_power(delegate) + env.locked_value(delegator) <= u128::MAX,
    ensures
        forall|one: Address|
            #[trigger] env.delegated(delegator, delegate).undelegated(delegator).voting_power(one)
                == env.voting_power(one),
        forall|one: Address|
            #[trigger] env.delegated(delegator, delegate).undelegated(delegator).delegate_of(one)
                == env.delegate_of(one),
        forall|key: VotingKey|
            #[trigger] env.delegated(delegator, delegate).undelegated(delegator).voting_amount(key)
                == env.voting_amount(key),
        ({
            let after = env.delegated(delegator, delegate).undelegated(delegator);
            let received = VotingKey::DelegatedPower(delegate);
            let amounts = env.persistent.voting_amounts;
            &&& after == EnvView {
                persistent: PersistentView {
                    voting_amounts: after.persistent.voting_amounts,
                    ..env.persistent
                },
                ..env
            }
            &&& after.persistent.voting_amounts.remove(received) == amounts.remove(received)
            &&& amounts.contains_key(received) && amounts[received] == 0 || after == env
        }),
{
    let after = env.delegated(delegator, delegate).undelegated(delegator);
    let received = VotingKey::DelegatedPower(delegate);
    let amounts = env.persistent.voting_amounts;
    assert(after.persistent.delegations =~= env.persistent.delegations);
    assert(after.persistent.voting_amounts.remove(received) =~= amounts.remove(received));
    if !(amounts.contains_key(received) && amounts[received] == 0) {
        assert(after.persistent.voting_amounts =~= amounts);
    }
    assert(after =~= EnvView {
        persistent: PersistentView {
            voting_amounts: after.persistent.voting_amounts,
            ..env.persistent
        },
        ..env
    });
    assert forall|one: Address| #[trigger] after.voting_power(one) == env.voting_power(one) by {
        assert(after.delegate_of(one) == env.delegate_of(one));
        assert(after.locked_value(one) == env.locked_value(one));
        assert(after.delegated_power(one) == env.delegated_power(one));
    }
}

/// A delegator's locked value is tracked by their delegate: what they lock and
/// unlock, the delegate gains and loses.
pub proof fn relocking_tracks_the_delegate(env: EnvView, user: Address, amount: u128)
    requires
        env.accounted(),
        env.delegate_of(user) is Some,
        env.delegated_power(env.votes_for(user)) - env.locked_value(user) + amount <= u128::MAX,
    ensures
        ({
            let after = env.relocked(user, amount);
            let delegate = env.votes_for(user);
            &&& after.locked_value(user) == amount
            &&& after.delegated_power(delegate) == env.delegated_power(delegate)
                - env.locked_value(user) + amount
            &&& after.voting_power(user) == env.voting_power(user)
        }),
{
    let delegate = env.votes_for(user);
    assert(env.delegate_of(user) != Some(user));
    assert(env.delegators_of(delegate).finite());
    lemma_locked_weight(env, delegate);
    assert(env.delegated_power(delegate) == env.weight_behind(delegate));
}

/// Locked value of a holder who has not delegated counts for themselves alone.
pub proof fn relocking_without_a_delegate(env: EnvView, user: Address, amount: u128)
    requires
        env.delegate_of(user) is None,
        env.delegated_power(user) == 0,
    ensures
        env.relocked(user, amount).voting_power(user) == amount,
        forall|one: Address|
            one != user ==> #[trigger] env.relocked(user, amount).voting_power(one)
                == env.voting_power(one),
{
}

} // verus!
