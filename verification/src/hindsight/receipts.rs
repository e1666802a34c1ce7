//! Finding trades in the receipts of a block.
use vstd::prelude::*;

use crate::amount::Amount;
use crate::bytes::{is_among, Address, Bytes};
use crate::table::Table;

verus! {

/// A receipt, as far as trades are looked for in it.
#[derive(Debug)]
pub struct Receipt {
    /// Whether the transaction succeeded.
    pub status: bool,
    /// The contract that was called; none where one was created.
    pub to: Option<Address>,
    /// The contracts that emitted logs.
    pub emitters: Vec<Address>,
}

/// How a transaction was matched.
#[derive(Debug)]
pub struct Matched {
    pub entry_point: Address,
    /// Whether the trader is the maker of an order, rather than the sender.
    pub intent_fill: bool,
}

/// Whether a known aggregator emitted a log.
pub open spec fn has_known_log(
    receipt: Receipt,
    aggregators: Map<Seq<u8>, String>,
) -> bool {
    exists|i: int|
        0 <= i < receipt.emitters@.len() && aggregators.dom().contains(
            (#[trigger] receipt.emitters@[i])@,
        )
}

/// Whether a transaction is matched, and how.
pub open spec fn is_match(
    receipt: Receipt,
    names: Map<Seq<u8>, String>,
    aggregators: Map<Seq<u8>, String>,
    batch_settlers: Seq<Address>,
    r: Option<Matched>,
) -> bool {
    if !receipt.status || receipt.to is None {
        r is None
    } else {
        let entry_point = receipt.to->Some_0;
        if names.dom().contains(entry_point@) {
            r == Some(
                Matched {
                    entry_point,
                    intent_fill: crate::bytes::among(batch_settlers, entry_point@),
                },
            )
        } else if has_known_log(receipt, aggregators) {
            r == Some(Matched { entry_point, intent_fill: true })
        } else {
            r is None
        }
    }
}

/// Matches a transaction that succeeded, by the contract that was called or by a log of a known
/// aggregator. Batch settlers are called by solvers, so that their traders are makers of orders, as they
/// are where only a log is known.
pub fn match_receipt(
    receipt: &Receipt,
    names: &Table<Address, String>,
    aggregators: &Table<Address, String>,
    batch_settlers: &Vec<Address>,
) -> (r: Option<Matched>)
    ensures
        is_match(*receipt, names@, aggregators@, batch_settlers@, r),
{
    if !receipt.status {
        return None;
    }
    let entry_point: &Address = match &receipt.to {
        Some(address) => address,
        None => {
            return None;
        },
    };
    if names.contains(entry_point) {
        return Some(
            Matched {
                entry_point: entry_point.clone(),
                intent_fill: is_among(batch_settlers, entry_point),
            },
        );
    }
    let mut i: usize = 0;
    while i < receipt.emitters.len()
        invariant
            i <= receipt.emitters@.len(),
            receipt.status,
            receipt.to == Some(*entry_point),
            !names@.dom().contains(entry_point@),
            forall|j: int|
                0 <= j < i ==> !aggregators@.dom().contains((#[trigger] receipt.emitters@[j])@),
        decreases receipt.emitters@.len() - i,
    {
        if aggregators.contains(&receipt.emitters[i]) {
            return Some(Matched { entry_point: entry_point.clone(), intent_fill: true });
        }
        i += 1;
    }
    None
}

/// A transfer of tokens.
#[derive(Debug)]
pub struct Movement {
    pub token: Address,
    pub from: Address,
    pub to: Address,
    pub amount: Amount,
}

/// The values of a transfer.
pub struct MovementView {
    pub token: Seq<u8>,
    pub from: Seq<u8>,
    pub to: Seq<u8>,
    pub amount: nat,
}

impl View for Movement {
    type V = MovementView;

    open spec fn view(&self) -> MovementView {
        MovementView {
            token: self.token@,
            from: self.from@,
            to: self.to@,
            amount: self.amount@,
        }
    }
}

/// A transfer of the native token.
pub type NativeTransfer = (Address, Address, Amount);

/// Transfers of tokens, and of the native token under its address.
pub open spec fn all_movements(
    logs: Seq<Movement>,
    native: Seq<NativeTransfer>,
) -> Seq<MovementView> {
    logs.map_values(|m: Movement| m@) + native.map_values(
        |n: NativeTransfer|
            MovementView {
                token: crate::hindsight::price::native_address(),
                from: n.0@,
                to: n.1@,
                amount: n.2@,
            },
    )
}

/// What an account received of a token.
pub open spec fn received(moves: Seq<MovementView>, account: Seq<u8>, token: Seq<u8>) -> nat
    decreases moves.len(),
{
    if moves.len() == 0 {
        0
    } else {
        let last = moves.last();
        received(moves.drop_last(), account, token) + if last.to == account && last.token == token {
            last.amount
        } else {
            0
        }
    }
}

/// What an account sent of a token.
pub open spec fn sent(moves: Seq<MovementView>, account: Seq<u8>, token: Seq<u8>) -> nat
    decreases moves.len(),
{
    if moves.len() == 0 {
        0
    } else {
        let last = moves.last();
        sent(moves.drop_last(), account, token) + if last.from == account && last.token == token {
            last.amount
        } else {
            0
        }
    }
}

/// An account is left with less of a token.
pub open spec fn sells(moves: Seq<MovementView>, account: Seq<u8>, token: Seq<u8>) -> bool {
    sent(moves, account, token) > received(moves, account, token)
}

/// An account is left with more of a token.
pub open spec fn buys(moves: Seq<MovementView>, account: Seq<u8>, token: Seq<u8>) -> bool {
    received(moves, account, token) > sent(moves, account, token)
}

/// A swap of one token for another.
#[derive(Debug)]
pub struct MakerTrade {
    pub token_in: Address,
    pub amount_in: Amount,
    pub token_out: Address,
    pub amount_out: Amount,
}

/// An account is left with less of one token, with more of another, and with as much of all others.
pub open spec fn nets_swap(
    moves: Seq<MovementView>,
    account: Seq<u8>,
    token_in: Seq<u8>,
    token_out: Seq<u8>,
) -> bool {
    &&& sells(moves, account, token_in)
    &&& buys(moves, account, token_out)
    &&& forall|token: Seq<u8>| #[trigger] sells(moves, account, token) ==> token == token_in
    &&& forall|token: Seq<u8>| #[trigger] buys(moves, account, token) ==> token == token_out
}

/// An account has swapped one token for another, all in all.
pub open spec fn is_swapper(moves: Seq<MovementView>, account: Seq<u8>) -> bool {
    exists|token_in: Seq<u8>, token_out: Seq<u8>| #[trigger]
        nets_swap(moves, account, token_in, token_out)
}

/// Whether a trade is what an account has swapped, all in all.
pub open spec fn is_net_trade(
    moves: Seq<MovementView>,
    account: Seq<u8>,
    trade: MakerTrade,
) -> bool {
    &&& nets_swap(moves, account, trade.token_in@, trade.token_out@)
    &&& trade.amount_in@ == sent(moves, account, trade.token_in@) - received(
        moves,
        account,
        trade.token_in@,
    )
    &&& trade.amount_out@ == received(moves, account, trade.token_out@) - sent(
        moves,
        account,
        trade.token_out@,
    )
}

/// All transfers in one list, those of the native token under its address.
fn merge(logs: &Vec<Movement>, native: &Vec<NativeTransfer>) -> (r: Vec<Movement>)
    ensures
        r@.map_values(|m: Movement| m@) == all_movements(logs@, native@),
{
    let ghost all = all_movements(logs@, native@);
    let mut moves: Vec<Movement> = Vec::new();
    let mut i: usize = 0;
    while i < logs.len()
        invariant
            i <= logs@.len(),
            all == all_movements(logs@, native@),
            moves@.len() == i,
            forall|j: int| 0 <= j < i ==> (#[trigger] moves@[j])@ == all[j],
        decreases logs@.len() - i,
    {
        let m: &Movement = &logs[i];
        moves.push(
            Movement {
                token: m.token.clone(),
                from: m.from.clone(),
                to: m.to.clone(),
                amount: m.amount.clone(),
            },
        );
        i += 1;
    }
    let n: usize = logs.len();
    let mut k: usize = 0;
    while k < native.len()
        invariant
            k <= native@.len(),
            n == logs@.len(),
            all == all_movements(logs@, native@),
            moves@.len() == n + k,
            forall|j: int| 0 <= j < n + k ==> (#[trigger] moves@[j])@ == all[j],
        decreases native@.len() - k,
    {
        let transfer: &NativeTransfer = &native[k];
        moves.push(
            Movement {
                token: Bytes::zero(20),
                from: transfer.0.clone(),
                to: transfer.1.clone(),
                amount: transfer.2.clone(),
            },
        );
        k += 1;
    }
    assert(moves@.map_values(|m: Movement| m@) =~= all);
    moves
}

/// What an account received and sent of a token.
fn net_flow(moves: &Vec<Movement>, account: &Address, token: &Address) -> (r: (Amount, Amount))
    ensures
        r.0@ == received(moves@.map_values(|m: Movement| m@), account@, token@),
        r.1@ == sent(moves@.map_values(|m: Movement| m@), account@, token@),
{
    let ghost views = moves@.map_values(|m: Movement| m@);
    let mut inflow: Amount = Amount::zero();
    let mut outflow: Amount = Amount::zero();
    let mut i: usize = 0;
    while i < moves.len()
        invariant
            i <= moves@.len(),
            views == moves@.map_values(|m: Movement| m@),
            inflow@ == received(views.take(i as int), account@, token@),
            outflow@ == sent(views.take(i as int), account@, token@),
        decreases moves@.len() - i,
    {
        let m: &Movement = &moves[i];
        assert(views.take(i + 1).drop_last() == views.take(i as int));
        assert(views.take(i + 1).last() == m@);
        if m.token.same(token) {
            if m.to.same(account) {
                inflow = inflow.plus(&m.amount);
            }
            if m.from.same(account) {
                outflow = outflow.plus(&m.amount);
            }
        }
        i += 1;
    }
    assert(views.take(i as int) == views);
    (inflow, outflow)
}

/// A token that moves nowhere leaves every account with as much of it.
proof fn unmoved_token_is_even(moves: Seq<MovementView>, account: Seq<u8>, token: Seq<u8>)
    requires
        forall|i: int| 0 <= i < moves.len() ==> (#[trigger] moves[i]).token != token,
    ensures
        received(moves, account, token) == 0,
        sent(moves, account, token) == 0,
    decreases moves.len(),
{
    if moves.len() > 0 {
        let front = moves.drop_last();
        assert forall|i: int| 0 <= i < front.len() implies (#[trigger] front[i]).token != token by {
            assert(front[i] == moves[i]);
        }
        unmoved_token_is_even(front, account, token);
        assert(moves[moves.len() - 1].token != token);
    }
}

/// The swap that an account has made all in all, where it is left with less of one token, with more of
/// another, and with as much of all others.
pub fn decode_trade(moves: &Vec<Movement>, account: &Address) -> (r: Option<MakerTrade>)
    ensures
        match r {
            Some(trade) => is_net_trade(
                moves@.map_values(|m: Movement| m@),
                account@,
                trade,
            ),
            None => !is_swapper(moves@.map_values(|m: Movement| m@), account@),
        },
{
    let ghost views = moves@.map_values(|m: Movement| m@);
    let mut sold: Option<(Address, Amount)> = None;
    let mut bought: Option<(Address, Amount)> = None;
    let mut i: usize = 0;
    while i < moves.len()
        invariant
            i <= moves@.len(),
            views == moves@.map_values(|m: Movement| m@),
            match sold {
                Some(s) => sells(views, account@, s.0@) && s.1@ == sent(views, account@, s.0@)
                    - received(views, account@, s.0@),
                None => true,
            },
            match bought {
                Some(b) => buys(views, account@, b.0@) && b.1@ == received(views, account@, b.0@)
                    - sent(views, account@, b.0@),
                None => true,
            },
            forall|j: int|
                0 <= j < i && sells(views, account@, (#[trigger] views[j]).token)
                    ==> (sold matches Some(s) && s.0@ == views[j].token),
            forall|j: int|
                0 <= j < i && buys(views, account@, (#[trigger] views[j]).token)
                    ==> (bought matches Some(b) && b.0@ == views[j].token),
        decreases moves@.len() - i,
    {
        let token: &Address = &moves[i].token;
        assert(views[i as int].token == token@);
        let flow: (Amount, Amount) = net_flow(moves, account, token);
        if flow.0.less_than(&flow.1) {
            let known: bool = match &sold {
                Some(s) => s.0.same(token),
                None => false,
            };
            if !known {
                if sold.is_some() {
                    proof {
                        let other = sold->Some_0.0@;
                        assert forall|a: Seq<u8>, b: Seq<u8>| !#[trigger]
                            nets_swap(views, account@, a, b) by {
                            assert(sells(views, account@, other));
                            assert(sells(views, account@, token@));
                        }
                    }
                    return None;
                }
                sold = Some((token.clone(), flow.1.minus(&flow.0)));
            }
        } else if flow.1.less_than(&flow.0) {
            let known: bool = match &bought {
                Some(b) => b.0.same(token),
                None => false,
            };
            if !known {
                if bought.is_some() {
                    proof {
                        let other = bought->Some_0.0@;
                        assert forall|a: Seq<u8>, b: Seq<u8>| !#[trigger]
                            nets_swap(views, account@, a, b) by {
                            assert(buys(views, account@, other));
                            assert(buys(views, account@, token@));
                        }
                    }
                    return None;
                }
                bought = Some((token.clone(), flow.0.minus(&flow.1)));
            }
        }
        i += 1;
    }
    proof {
        assert forall|token: Seq<u8>| #[trigger] sells(views, account@, token) implies (sold matches Some(s)
            && s.0@ == token) by {
            if forall|j: int| 0 <= j < views.len() ==> (#[trigger] views[j]).token != token {
                unmoved_token_is_even(views, account@, token);
            } else {
                let j = choose|j: int| 0 <= j < views.len() && (#[trigger] views[j]).token == token;
                assert(sells(views, account@, views[j].token));
            }
        }
        assert forall|token: Seq<u8>| #[trigger] buys(views, account@, token) implies (bought matches Some(b)
            && b.0@ == token) by {
            if forall|j: int| 0 <= j < views.len() ==> (#[trigger] views[j]).token != token {
                unmoved_token_is_even(views, account@, token);
            } else {
                let j = choose|j: int| 0 <= j < views.len() && (#[trigger] views[j]).token == token;
                assert(buys(views, account@, views[j].token));
            }
        }
    }
    match (sold, bought) {
        (Some(s), Some(b)) => Some(
            MakerTrade { token_in: s.0, amount_in: s.1, token_out: b.0, amount_out: b.1 },
        ),
        _ => None,
    }
}

/// A string of bytes comes before another: byte by byte, and a beginning before the whole.
pub open spec fn precedes(a: Seq<u8>, b: Seq<u8>) -> bool
    decreases a.len(),
{
    if b.len() == 0 {
        false
    } else if a.len() == 0 {
        true
    } else {
        a[0] < b[0] || (a[0] == b[0] && precedes(a.skip(1), b.skip(1)))
    }
}

proof fn order_is_total(a: Seq<u8>, b: Seq<u8>)
    ensures
        a == b || precedes(a, b) || precedes(b, a),
    decreases a.len(),
{
    if a.len() > 0 && b.len() > 0 {
        if a[0] == b[0] {
            order_is_total(a.skip(1), b.skip(1));
            if a.skip(1) == b.skip(1) {
                assert(a.skip(1).len() == b.skip(1).len());
                assert forall|i: int| 0 <= i < a.len() implies a[i] == b[i] by {
                    if i > 0 {
                        assert(a[i] == a.skip(1)[i - 1]);
                        assert(b[i] == b.skip(1)[i - 1]);
                    }
                }
                assert(a =~= b);
            }
        }
    } else if a.len() == 0 && b.len() == 0 {
        assert(a =~= b);
    }
}

proof fn order_is_transitive(a: Seq<u8>, b: Seq<u8>, c: Seq<u8>)
    requires
        precedes(a, b),
        precedes(b, c),
    ensures
        precedes(a, c),
    decreases a.len(),
{
    if a.len() > 0 && a[0] == b[0] && b[0] == c[0] {
        order_is_transitive(a.skip(1), b.skip(1), c.skip(1));
    }
}

/// Whether an address comes before another.
fn comes_before(a: &Address, b: &Address) -> (r: bool)
    ensures
        r == precedes(a@, b@),
{
    let mut i: usize = 0;
    assert(a@.skip(0) == a@);
    assert(b@.skip(0) == b@);
    while i < a.len() && i < b.len()
        invariant
            i <= a@.len(),
            i <= b@.len(),
            precedes(a@, b@) == precedes(a@.skip(i as int), b@.skip(i as int)),
        decreases a@.len() - i,
    {
        assert(a@.skip(i as int)[0] == a@[i as int]);
        assert(b@.skip(i as int)[0] == b@[i as int]);
        assert(a@.skip(i as int).skip(1) == a@.skip(i + 1));
        assert(b@.skip(i as int).skip(1) == b@.skip(i + 1));
        let x: u8 = a.get(i);
        let y: u8 = b.get(i);
        if x < y {
            return true;
        }
        if y < x {
            return false;
        }
        i += 1;
    }
    i < b.len()
}

/// Addresses in ascending order, each once.
pub open spec fn is_ascending(addresses: Seq<Address>) -> bool {
    forall|i: int, j: int|
        0 <= i < j < addresses.len() ==> precedes(
            (#[trigger] addresses[i])@,
            (#[trigger] addresses[j])@,
        )
}

/// Puts an address into a list in ascending order, unless it is in it.
fn insert_address(list: &mut Vec<Address>, address: &Address)
    requires
        is_ascending(old(list)@),
    ensures
        is_ascending(final(list)@),
        forall|a: Seq<u8>| #[trigger]
            crate::bytes::among(final(list)@, a) == (crate::bytes::among(
                old(list)@,
                a,
            ) || a == address@),
{
    let ghost before = list@;
    let mut at: usize = 0;
    while at < list.len() && comes_before(&list[at], address)
        invariant
            at <= list@.len(),
            list@ == before,
            forall|i: int| 0 <= i < at ==> precedes((#[trigger] before[i])@, address@),
        decreases list@.len() - at,
    {
        at += 1;
    }
    if at < list.len() && list[at].same(address) {
        assert(before[at as int]@ == address@);
        return;
    }
    list.insert(at, address.clone());
    proof {
        let after = list@;
        assert(after == before.insert(at as int, *address));
        if at < before.len() {
            order_is_total(before[at as int]@, address@);
        }
        assert forall|i: int, j: int| 0 <= i < j < after.len() implies precedes(
            (#[trigger] after[i])@,
            (#[trigger] after[j])@,
        ) by {
            if j < at {
                assert(after[i] == before[i] && after[j] == before[j]);
            } else if j == at {
                assert(after[i] == before[i]);
            } else if i < at {
                assert(after[i] == before[i] && after[j] == before[j - 1]);
            } else if i == at {
                assert(after[j] == before[j - 1]);
                if j - 1 > at {
                    assert(precedes(before[at as int]@, before[j - 1]@));
                    order_is_transitive(address@, before[at as int]@, before[j - 1]@);
                }
            } else {
                assert(after[i] == before[i - 1] && after[j] == before[j - 1]);
            }
        }
        assert forall|a: Seq<u8>| #[trigger]
            crate::bytes::among(after, a) == (crate::bytes::among(before, a) || a
                == address@) by {
            if crate::bytes::among(before, a) {
                let k = choose|k: int| 0 <= k < before.len() && #[trigger] before[k]@ == a;
                if k < at {
                    assert(after[k]@ == a);
                } else {
                    assert(after[k + 1]@ == a);
                }
            }
            if a == address@ {
                assert(after[at as int]@ == a);
            }
            if crate::bytes::among(after, a) {
                let k = choose|k: int| 0 <= k < after.len() && #[trigger] after[k]@ == a;
                if k < at {
                    assert(before[k]@ == a);
                } else if k > at {
                    assert(before[k - 1]@ == a);
                }
            }
        }
    }
}

/// An account takes part in a transfer.
pub open spec fn takes_part(moves: Seq<MovementView>, account: Seq<u8>) -> bool {
    exists|i: int|
        0 <= i < moves.len() && ((#[trigger] moves[i]).from == account || moves[i].to == account)
}

/// An account may be the maker of an order: it takes part in a transfer, and is neither the native
/// address nor left out nor a known contract.
pub open spec fn may_be_maker(
    moves: Seq<MovementView>,
    exclude: Seq<Address>,
    names: Map<Seq<u8>, String>,
    account: Seq<u8>,
) -> bool {
    &&& takes_part(moves, account)
    &&& account != crate::hindsight::price::native_address()
    &&& !crate::bytes::among(exclude, account)
    &&& !names.dom().contains(account)
}

/// Whether candidates are all accounts that may be the maker of an order and have made a swap, with
/// their swaps, in ascending order.
pub open spec fn are_candidates(
    moves: Seq<MovementView>,
    exclude: Seq<Address>,
    names: Map<Seq<u8>, String>,
    candidates: Seq<(Address, MakerTrade)>,
) -> bool {
    &&& forall|i: int, j: int|
        0 <= i < j < candidates.len() ==> precedes(
            (#[trigger] candidates[i]).0@,
            (#[trigger] candidates[j]).0@,
        )
    &&& forall|i: int|
        0 <= i < candidates.len() ==> may_be_maker(
            moves,
            exclude,
            names,
            (#[trigger] candidates[i]).0@,
        ) && is_net_trade(moves, candidates[i].0@, candidates[i].1)
    &&& forall|account: Seq<u8>|
        may_be_maker(moves, exclude, names, account) && #[trigger] is_swapper(moves, account)
            ==> exists|i: int|
            0 <= i < candidates.len() && (#[trigger] candidates[i]).0@ == account
}

/// The accounts that take part in transfers, in ascending order.
fn parties(moves: &Vec<Movement>) -> (r: Vec<Address>)
    ensures
        is_ascending(r@),
        forall|a: Seq<u8>| #[trigger]
            crate::bytes::among(r@, a) == takes_part(
                moves@.map_values(|m: Movement| m@),
                a,
            ),
{
    let ghost views = moves@.map_values(|m: Movement| m@);
    let mut list: Vec<Address> = Vec::new();
    let mut i: usize = 0;
    while i < moves.len()
        invariant
            i <= moves@.len(),
            views == moves@.map_values(|m: Movement| m@),
            is_ascending(list@),
            forall|a: Seq<u8>| #[trigger]
                crate::bytes::among(list@, a) == takes_part(views.take(i as int), a),
        decreases moves@.len() - i,
    {
        let ghost seen = views.take(i as int);
        insert_address(&mut list, &moves[i].from);
        insert_address(&mut list, &moves[i].to);
        proof {
            let next = views.take(i + 1);
            assert forall|a: Seq<u8>| #[trigger]
                crate::bytes::among(list@, a) == takes_part(next, a) by {
                if takes_part(seen, a) {
                    let k = choose|k: int|
                        0 <= k < seen.len() && ((#[trigger] seen[k]).from == a || seen[k].to == a);
                    assert(next[k] == seen[k]);
                }
                if takes_part(next, a) {
                    let k = choose|k: int|
                        0 <= k < next.len() && ((#[trigger] next[k]).from == a || next[k].to == a);
                    if k < i {
                        assert(seen[k] == next[k]);
                    }
                }
                assert(next[i as int] == moves@[i as int]@);
            }
        }
        i += 1;
    }
    assert(views.take(i as int) == views);
    list
}

/// The accounts whose transfers net a clean swap of two tokens, in ascending order: the native address,
/// excluded addresses and known contracts are left out.
pub fn maker_candidates(
    logs: &Vec<Movement>,
    native: &Vec<NativeTransfer>,
    exclude: &Vec<Address>,
    names: &Table<Address, String>,
) -> (r: Vec<(Address, MakerTrade)>)
    ensures
        are_candidates(all_movements(logs@, native@), exclude@, names@, r@),
{
    let moves: Vec<Movement> = merge(logs, native);
    let ghost views = all_movements(logs@, native@);
    let accounts: Vec<Address> = parties(&moves);
    let zero: Address = Bytes::zero(20);
    let mut swaps: Vec<(Address, MakerTrade)> = Vec::new();
    let ghost mut places: Seq<int> = Seq::empty();
    let mut i: usize = 0;
    while i < accounts.len()
        invariant
            i <= accounts@.len(),
            views == moves@.map_values(|m: Movement| m@),
            zero@ == crate::hindsight::price::native_address(),
            is_ascending(accounts@),
            forall|a: Seq<u8>| #[trigger]
                crate::bytes::among(accounts@, a) == takes_part(views, a),
            places.len() == swaps@.len(),
            forall|j: int|
                0 <= j < places.len() ==> 0 <= #[trigger] places[j] < i && swaps@[j].0@
                    == accounts@[places[j]]@,
            forall|j: int, k: int|
                0 <= j < k < places.len() ==> #[trigger] places[j] < #[trigger] places[k],
            forall|j: int|
                0 <= j < swaps@.len() ==> may_be_maker(
                    views,
                    exclude@,
                    names@,
                    (#[trigger] swaps@[j]).0@,
                ) && is_net_trade(views, swaps@[j].0@, swaps@[j].1),
            forall|j: int|
                0 <= j < i && may_be_maker(views, exclude@, names@, (#[trigger] accounts@[j])@)
                    && is_swapper(views, accounts@[j]@) ==> exists|k: int|
                    0 <= k < swaps@.len() && (#[trigger] swaps@[k]).0@ == accounts@[j]@,
        decreases accounts@.len() - i,
    {
        let ghost before = swaps@;
        let account: &Address = &accounts[i];
        proof {
            assert(crate::bytes::among(accounts@, account@)) by {
                assert(accounts@[i as int]@ == account@);
            }
        }
        if !account.same(&zero) && !is_among(exclude, account) && !names.contains(account) {
            match decode_trade(&moves, account) {
                Some(trade) => {
                    swaps.push((account.clone(), trade));
                    proof {
                        places = places.push(i as int);
                    }
                },
                None => {},
            }
        }
        proof {
            assert forall|j: int|
                0 <= j < i + 1 && may_be_maker(views, exclude@, names@, (#[trigger] accounts@[j])@)
                    && is_swapper(views, accounts@[j]@) implies exists|k: int|
                0 <= k < swaps@.len() && (#[trigger] swaps@[k]).0@ == accounts@[j]@ by {
                if j < i {
                    let k = choose|k: int|
                        0 <= k < before.len() && (#[trigger] before[k]).0@ == accounts@[j]@;
                    assert(swaps@[k] == before[k]);
                } else {
                    assert(swaps@[before.len() as int].0@ == accounts@[j]@);
                }
            }
        }
        i += 1;
    }
    proof {
        assert forall|j: int, k: int| 0 <= j < k < swaps@.len() implies precedes(
            (#[trigger] swaps@[j]).0@,
            (#[trigger] swaps@[k]).0@,
        ) by {
            assert(places[j] < places[k]);
            assert(precedes(accounts@[places[j]]@, accounts@[places[k]]@));
        }
        assert forall|account: Seq<u8>|
            may_be_maker(views, exclude@, names@, account) && #[trigger] is_swapper(
                views,
                account,
            ) implies exists|k: int|
            0 <= k < swaps@.len() && (#[trigger] swaps@[k]).0@ == account by {
            assert(crate::bytes::among(accounts@, account));
            let j = choose|j: int| 0 <= j < accounts@.len() && #[trigger] accounts@[j]@ == account;
            assert(is_swapper(views, accounts@[j]@));
        }
    }
    swaps
}

/// Whether the code of an account says that it is a contract. Where the code could not be fetched the
/// account counts as one, so that it is not taken for a maker.
pub fn is_contract(code_length: Option<usize>) -> (r: bool)
    ensures
        r == match code_length {
            Some(length) => length > 0,
            None => true,
        },
{
    match code_length {
        Some(length) => length > 0,
        None => true,
    }
}

/// What the search for a maker comes to.
#[derive(Debug, Clone, Copy, PartialEq, Eq, Structural)]
pub enum MakerSearch {
    /// The candidate at this place is the maker.
    Found(usize),
    /// The code of the candidate at this place is to be fetched.
    FetchCode(usize),
    /// No candidate is the maker.
    NotFound,
}

/// What the search comes to from a place on, by what is known of candidates: contracts are passed over,
/// and the first other account is the maker.
pub open spec fn search_from(
    candidates: Seq<(Address, MakerTrade)>,
    contracts: Map<Seq<u8>, bool>,
    at: int,
) -> MakerSearch
    decreases candidates.len() - at,
{
    if at < 0 || at >= candidates.len() {
        MakerSearch::NotFound
    } else if !contracts.dom().contains(candidates[at].0@) {
        MakerSearch::FetchCode(at as usize)
    } else if contracts[candidates[at].0@] {
        search_from(candidates, contracts, at + 1)
    } else {
        MakerSearch::Found(at as usize)
    }
}

/// Finds the maker's trade, step by step: says whose code is to be fetched, or who the maker is. Pools
/// net the inverse swap, so contracts are left out and the first other account is the maker.
pub fn find_maker_trade(
    candidates: &Vec<(Address, MakerTrade)>,
    contracts: &Table<Address, bool>,
) -> (r: MakerSearch)
    ensures
        r == search_from(candidates@, contracts@, 0),
{
    let mut i: usize = 0;
    while i < candidates.len()
        invariant
            i <= candidates@.len(),
            search_from(candidates@, contracts@, 0) == search_from(
                candidates@,
                contracts@,
                i as int,
            ),
        decreases candidates@.len() - i,
    {
        match contracts.get(&candidates[i].0) {
            None => {
                return MakerSearch::FetchCode(i);
            },
            Some(contract) => {
                if !*contract {
                    return MakerSearch::Found(i);
                }
            },
        }
        i += 1;
    }
    MakerSearch::NotFound
}

/// The maker that is found is no contract, and all candidates before it are.
pub proof fn maker_is_first_account(
    candidates: Seq<(Address, MakerTrade)>,
    contracts: Map<Seq<u8>, bool>,
    at: int,
)
    requires
        0 <= at,
        candidates.len() <= usize::MAX,
    ensures
        match search_from(candidates, contracts, at) {
            MakerSearch::Found(k) => {
                &&& at <= k < candidates.len()
                &&& contracts.dom().contains(candidates[k as int].0@)
                &&& !contracts[candidates[k as int].0@]
                &&& forall|j: int|
                    at <= j < k ==> contracts.dom().contains((#[trigger] candidates[j]).0@)
                        && contracts[candidates[j].0@]
            },
            MakerSearch::FetchCode(k) => {
                at <= k < candidates.len() && !contracts.dom().contains(candidates[k as int].0@)
            },
            MakerSearch::NotFound => forall|j: int|
                at <= j < candidates.len() ==> contracts.dom().contains(
                    (#[trigger] candidates[j]).0@,
                ) && contracts[candidates[j].0@],
        },
    decreases candidates.len() - at,
{
    if at < candidates.len() {
        maker_is_first_account(candidates, contracts, at + 1);
    }
}

/// A transaction is matched exactly where it succeeded, called a contract, and that contract is known or a
/// known aggregator emitted a log. The trader is its sender only where the contract is known and no batch
/// settler.
pub proof fn known_transactions_are_matched(
    receipt: Receipt,
    names: Map<Seq<u8>, String>,
    aggregators: Map<Seq<u8>, String>,
    batch_settlers: Seq<Address>,
    r: Option<Matched>,
)
    requires
        is_match(receipt, names, aggregators, batch_settlers, r),
    ensures
        r is Some <==> receipt.status && receipt.to is Some && (names.dom().contains(
            receipt.to->Some_0@,
        ) || exists|i: int|
            0 <= i < receipt.emitters@.len() && aggregators.dom().contains(
                (#[trigger] receipt.emitters@[i])@,
            )),
        r matches Some(matched) ==> matched.entry_point == receipt.to->Some_0,
        r matches Some(matched) ==> (!matched.intent_fill <==> names.dom().contains(
            receipt.to->Some_0@,
        ) && forall|i: int|
            0 <= i < batch_settlers.len() ==> (#[trigger] batch_settlers[i])@ != receipt.to->Some_0@),
{
    if receipt.to is Some {
        let entry_point = receipt.to->Some_0@;
        if crate::bytes::among(batch_settlers, entry_point) {
            let i = choose|i: int|
                0 <= i < batch_settlers.len() && #[trigger] batch_settlers[i]@ == entry_point;
            assert(batch_settlers[i]@ == entry_point);
        } else {
            assert forall|i: int| 0 <= i < batch_settlers.len() implies (
            #[trigger] batch_settlers[i])@ != entry_point by {
                if batch_settlers[i]@ == entry_point {
                    assert(crate::bytes::among(batch_settlers, entry_point));
                }
            }
        }
    }
}

/// A further transfer adds its amount to what its receiver got of its token, and to what its sender gave
/// of it, and changes nothing else.
pub proof fn transfers_add_up(
    moves: Seq<MovementView>,
    added: MovementView,
    account: Seq<u8>,
    token: Seq<u8>,
)
    ensures
        received(seq![], account, token) == 0 && sent(seq![], account, token) == 0,
        added.to == account && added.token == token ==> received(moves.push(added), account, token)
            == received(moves, account, token) + added.amount,
        added.to != account || added.token != token ==> received(moves.push(added), account, token)
            == received(moves, account, token),
        added.from == account && added.token == token ==> sent(moves.push(added), account, token)
            == sent(moves, account, token) + added.amount,
        added.from != account || added.token != token ==> sent(moves.push(added), account, token)
            == sent(moves, account, token),
{
    assert(moves.push(added).drop_last() =~= moves);
}

/// All transfers are those of tokens, as they are, and behind them those of the native token under twenty
/// zero bytes.
pub proof fn native_transfers_come_last(logs: Seq<Movement>, native: Seq<NativeTransfer>, i: int)
    ensures
        all_movements(logs, native).len() == logs.len() + native.len(),
        0 <= i < logs.len() ==> {
            let m = all_movements(logs, native)[i];
            m.token == logs[i].token@ && m.from == logs[i].from@ && m.to == logs[i].to@ && m.amount
                == logs[i].amount@
        },
        0 <= i < native.len() ==> {
            let m = all_movements(logs, native)[logs.len() + i];
            m.token == Seq::new(20, |k: int| 0u8) && m.from == native[i].0@ && m.to == native[i].1@
                && m.amount == native[i].2@
        },
{
    assert(crate::hindsight::price::native_address() =~= Seq::new(20, |k: int| 0u8));
}

/// An account has swapped one token for another exactly where it gave more of the one than it got, got
/// more of the other than it gave, and got as much as it gave of every other token.
pub proof fn swaps_leave_other_tokens_even(
    moves: Seq<MovementView>,
    account: Seq<u8>,
    trade: MakerTrade,
    token: Seq<u8>,
)
    requires
        is_net_trade(moves, account, trade),
    ensures
        trade.token_in@ != trade.token_out@,
        received(moves, account, trade.token_in@) + trade.amount_in@ == sent(
            moves,
            account,
            trade.token_in@,
        ),
        sent(moves, account, trade.token_out@) + trade.amount_out@ == received(
            moves,
            account,
            trade.token_out@,
        ),
        trade.amount_in@ > 0 && trade.amount_out@ > 0,
        token != trade.token_in@ && token != trade.token_out@ ==> received(moves, account, token)
            == sent(moves, account, token),
{
    assert(sells(moves, account, trade.token_in@));
    assert(buys(moves, account, trade.token_out@));
    assert(sells(moves, account, token) ==> token == trade.token_in@);
    assert(buys(moves, account, token) ==> token == trade.token_out@);
}

/// Where an account gave more of one token than it got, got more of another than it gave, and is even in
/// all others, it has swapped the one for the other.
pub proof fn accounts_even_in_other_tokens_have_swapped(
    moves: Seq<MovementView>,
    account: Seq<u8>,
    token_in: Seq<u8>,
    token_out: Seq<u8>,
)
    requires
        sent(moves, account, token_in) > received(moves, account, token_in),
        received(moves, account, token_out) > sent(moves, account, token_out),
        forall|token: Seq<u8>|
            token != token_in && token != token_out ==> #[trigger] received(moves, account, token)
                == sent(moves, account, token),
    ensures
        is_swapper(moves, account),
        nets_swap(moves, account, token_in, token_out),
{
    assert forall|token: Seq<u8>| #[trigger] sells(moves, account, token) implies token
        == token_in by {
        if token != token_in && token != token_out {
            assert(received(moves, account, token) == sent(moves, account, token));
        }
    }
    assert forall|token: Seq<u8>| #[trigger] buys(moves, account, token) implies token
        == token_out by {
        if token != token_in && token != token_out {
            assert(received(moves, account, token) == sent(moves, account, token));
        }
    }
    assert(nets_swap(moves, account, token_in, token_out));
}

/// Only an account that sends or receives something, is not the native address, is not left out and is no
/// known contract is a candidate, and of those every one that has made a swap is.
pub proof fn candidates_are_unknown_swappers(
    moves: Seq<MovementView>,
    exclude: Seq<Address>,
    names: Map<Seq<u8>, String>,
    candidates: Seq<(Address, MakerTrade)>,
    i: int,
    m: int,
    e: int,
    account: Seq<u8>,
)
    requires
        are_candidates(moves, exclude, names, candidates),
    ensures
        0 <= i < candidates.len() ==> {
            let maker = candidates[i].0@;
            &&& !names.dom().contains(maker)
            &&& maker != Seq::new(20, |k: int| 0u8)
            &&& 0 <= e < exclude.len() ==> exclude[e]@ != maker
            &&& exists|k: int|
                0 <= k < moves.len() && ((#[trigger] moves[k]).from == maker || moves[k].to == maker)
            &&& is_net_trade(moves, maker, candidates[i].1)
        },
        0 <= m < moves.len() && (moves[m].from == account || moves[m].to == account) && account
            != Seq::new(20, |k: int| 0u8) && !names.dom().contains(account) && (forall|k: int|
            0 <= k < exclude.len() ==> (#[trigger] exclude[k])@ != account) && is_swapper(moves, account)
            ==> exists|k: int| 0 <= k < candidates.len() && (#[trigger] candidates[k]).0@ == account,
{
    let zero = Seq::new(20, |k: int| 0u8);
    assert(crate::hindsight::price::native_address() =~= zero);
    if 0 <= i < candidates.len() {
        let maker = candidates[i].0@;
        assert(may_be_maker(moves, exclude, names, maker));
        if 0 <= e < exclude.len() && exclude[e]@ == maker {
            assert(crate::bytes::among(exclude, maker));
        }
    }
    if 0 <= m < moves.len() && (moves[m].from == account || moves[m].to == account) && account != zero
        && !names.dom().contains(account) && (forall|k: int|
        0 <= k < exclude.len() ==> (#[trigger] exclude[k])@ != account) && is_swapper(moves, account) {
        assert(takes_part(moves, account));
        if crate::bytes::among(exclude, account) {
            let k = choose|k: int| 0 <= k < exclude.len() && #[trigger] exclude[k]@ == account;
            assert(exclude[k]@ == account);
        }
        assert(may_be_maker(moves, exclude, names, account));
    }
}

/// A string of bytes comes before another exactly where it is the smaller one at the first place at which
/// they differ, or where it is a beginning of the longer one.
pub proof fn bytes_are_ordered_by_their_first_difference(a: Seq<u8>, b: Seq<u8>, at: int)
    requires
        0 <= at <= a.len(),
        0 <= at <= b.len(),
        a.take(at) == b.take(at),
        at < a.len() && at < b.len() ==> a[at] != b[at],
        at == a.len() || at == b.len() || a[at] != b[at],
    ensures
        precedes(a, b) <==> (at < b.len() && (at == a.len() || a[at] < b[at])),
    decreases at,
{
    if at > 0 {
        assert(a[0] == a.take(at)[0] && b[0] == b.take(at)[0]);
        assert(a.skip(1).take(at - 1) =~= a.take(at).skip(1));
        assert(b.skip(1).take(at - 1) =~= b.take(at).skip(1));
        bytes_are_ordered_by_their_first_difference(a.skip(1), b.skip(1), at - 1);
    }
}

/// An account is taken for a contract exactly where it has code, or where its code could not be fetched.
pub proof fn accounts_with_code_are_contracts(code_length: Option<usize>, r: bool)
    requires
        call_ensures(is_contract, (code_length,), r),
    ensures
        !r <==> code_length == Some(0usize),
{
}

/// Candidates stand in ascending order, so that none stands twice.
pub proof fn candidates_stand_in_order(
    moves: Seq<MovementView>,
    exclude: Seq<Address>,
    names: Map<Seq<u8>, String>,
    candidates: Seq<(Address, MakerTrade)>,
    i: int,
    j: int,
)
    requires
        are_candidates(moves, exclude, names, candidates),
        0 <= i < j < candidates.len(),
    ensures
        precedes(candidates[i].0@, candidates[j].0@),
        candidates[i].0@ != candidates[j].0@,
{
    let a = candidates[i].0@;
    assert(precedes(candidates[i].0@, candidates[j].0@));
    if a == candidates[j].0@ {
        bytes_are_ordered_by_their_first_difference(a, a, a.len() as int);
    }
}

} // verus!
