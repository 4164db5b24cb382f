//! Per-block fee and gas-price statistics of an Ethereum block.
use crate::bignum::{
    be_value, big_add, big_from_u64, big_from_unsigned_be, big_lt, big_magnitude_be, big_mul,
    big_sub, magnitude_bytes, BigNum,
};
use vstd::prelude::*;
use vstd::slice::slice_to_vec;

verus! {

/// What the statistics read of a transaction trace.
pub struct TransactionTrace {
    pub hash: Vec<u8>,
    pub gas_used: u64,
    /// Big-endian unsigned gas price, when the trace carries one.
    pub gas_price: Option<Vec<u8>>,
    /// Big-endian unsigned priority fee cap, when the trace carries one.
    pub max_priority_fee_per_gas: Option<Vec<u8>>,
    /// Transaction type (2 for dynamic-fee transactions).
    pub txn_type: i32,
    /// Trace status (1 for a successful transaction).
    pub status: i32,
}

/// What the statistics read of a block header.
pub struct BlockHeader {
    /// Big-endian unsigned base fee, absent before the London fork.
    pub base_fee_per_gas: Option<Vec<u8>>,
    /// Seconds of the block timestamp.
    pub timestamp: Option<i64>,
    pub gas_used: u64,
}

/// What the statistics read of a block.
pub struct Block {
    pub hash: Vec<u8>,
    pub number: u64,
    pub header: Option<BlockHeader>,
    pub transaction_traces: Vec<TransactionTrace>,
}

/// Fee statistics of one successful transaction. Amounts are big-endian
/// magnitudes.
pub struct TransactionMeta {
    pub hash: Vec<u8>,
    pub gas_used: u64,
    pub gas_price: Vec<u8>,
    pub gas_fee: Vec<u8>,
    pub txn_type: i32,
    pub timestamp: i64,
    pub index: i32,
    pub max_priority_fee_per_gas: Vec<u8>,
    pub burned_fee: Vec<u8>,
    pub miner_tip: Vec<u8>,
}

/// Fee statistics of a block. Amounts are big-endian magnitudes.
pub struct BlockMeta {
    pub hash: Vec<u8>,
    pub number: u64,
    pub timestamp: i64,
    pub gas_used: u64,
    pub base_fee_per_gas: Vec<u8>,
    pub txns: Vec<TransactionMeta>,
    pub txn_count: i32,
    pub min_gas_price: Vec<u8>,
    pub max_gas_price: Vec<u8>,
    pub first_gas_price: Vec<u8>,
    pub last_gas_price: Vec<u8>,
    pub burned_fees: Vec<u8>,
    pub gas_fees: Vec<u8>,
    pub miner_tips: Vec<u8>,
}

/// Bytes of an optional byte string; absent reads as empty.
pub open spec fn opt_bytes(b: Option<Vec<u8>>) -> Seq<u8> {
    match b {
        Some(v) => v@,
        None => Seq::empty(),
    }
}

/// Unsigned value of an optional big-endian byte string; absent reads as 0.
pub open spec fn opt_value(b: Option<Vec<u8>>) -> nat {
    be_value(opt_bytes(b))
}

impl Block {
    /// The block can be summarised: it has a header, and the header a timestamp.
    pub open spec fn well_formed(self) -> bool {
        &&& self.header is Some
        &&& self.header.unwrap().timestamp is Some
    }

    pub open spec fn base_fee_bytes(self) -> Seq<u8> {
        match self.header {
            Some(h) => opt_bytes(h.base_fee_per_gas),
            None => Seq::empty(),
        }
    }

    pub open spec fn base_fee(self) -> nat {
        be_value(self.base_fee_bytes())
    }

    /// The block has a base fee, i.e. it is from the London fork on.
    pub open spec fn is_london(self) -> bool {
        self.base_fee_bytes().len() != 0
    }

    pub open spec fn timestamp_spec(self) -> i64 {
        self.header.unwrap().timestamp.unwrap()
    }
}

pub open spec fn tx_gas_price(tx: TransactionTrace) -> nat {
    opt_value(tx.gas_price)
}

pub open spec fn tx_gas_fee(tx: TransactionTrace) -> int {
    tx_gas_price(tx) * tx.gas_used
}

/// Fee burned: base fee times gas used from London on, nothing before.
pub open spec fn tx_burned_fee(tx: TransactionTrace, base: nat, london: bool) -> int {
    if london {
        base * tx.gas_used
    } else {
        0
    }
}

/// Priority fee per gas: the gas price before London; the declared cap for
/// dynamic-fee transactions; otherwise what the gas price leaves above the
/// base fee (which may be negative).
pub open spec fn tx_priority_fee(tx: TransactionTrace, base: nat, london: bool) -> int {
    if !london {
        tx_gas_price(tx) as int
    } else if tx.txn_type == 2 {
        opt_value(tx.max_priority_fee_per_gas) as int
    } else {
        tx_gas_price(tx) - base
    }
}

/// Miner tip: the whole fee before London, gas used times the priority fee after.
pub open spec fn tx_miner_tip(tx: TransactionTrace, base: nat, london: bool) -> int {
    if !london {
        tx_gas_fee(tx)
    } else {
        tx.gas_used * tx_priority_fee(tx, base, london)
    }
}

/// The successful traces of `s`, newest (last) first.
pub open spec fn successful_newest_first(s: Seq<TransactionTrace>) -> Seq<TransactionTrace>
    decreases s.len(),
{
    if s.len() == 0 {
        Seq::empty()
    } else if s[0].status == 1 {
        successful_newest_first(s.drop_first()).push(s[0])
    } else {
        successful_newest_first(s.drop_first())
    }
}

pub open spec fn total_gas_fees(p: Seq<TransactionTrace>) -> int
    decreases p.len(),
{
    if p.len() == 0 {
        0
    } else {
        total_gas_fees(p.drop_last()) + tx_gas_fee(p.last())
    }
}

pub open spec fn total_burned_fees(p: Seq<TransactionTrace>, base: nat, london: bool) -> int
    decreases p.len(),
{
    if p.len() == 0 {
        0
    } else {
        total_burned_fees(p.drop_last(), base, london) + tx_burned_fee(p.last(), base, london)
    }
}

pub open spec fn total_miner_tips(p: Seq<TransactionTrace>, base: nat, london: bool) -> int
    decreases p.len(),
{
    if p.len() == 0 {
        0
    } else {
        total_miner_tips(p.drop_last(), base, london) + tx_miner_tip(p.last(), base, london)
    }
}

/// Smallest gas price among `p`; 0 when `p` is empty.
pub open spec fn lowest_gas_price(p: Seq<TransactionTrace>) -> nat
    decreases p.len(),
{
    if p.len() == 0 {
        0
    } else if p.len() == 1 {
        tx_gas_price(p[0])
    } else {
        let m = lowest_gas_price(p.drop_last());
        if tx_gas_price(p.last()) < m {
            tx_gas_price(p.last())
        } else {
            m
        }
    }
}

/// Largest gas price among `p`; 0 when `p` is empty.
pub open spec fn highest_gas_price(p: Seq<TransactionTrace>) -> nat
    decreases p.len(),
{
    if p.len() == 0 {
        0
    } else if p.len() == 1 {
        tx_gas_price(p[0])
    } else {
        let m = highest_gas_price(p.drop_last());
        if m < tx_gas_price(p.last()) {
            tx_gas_price(p.last())
        } else {
            m
        }
    }
}

/// `m` holds the statistics of `tx`, the `index`-th transaction listed, in a
/// block with base fee `base` at time `timestamp`.
pub open spec fn tx_meta_matches(
    m: TransactionMeta,
    tx: TransactionTrace,
    base: nat,
    london: bool,
    timestamp: i64,
    index: int,
) -> bool {
    &&& m.hash@ == tx.hash@
    &&& m.gas_used == tx.gas_used
    &&& m.gas_price@ == magnitude_bytes(tx_gas_price(tx) as int)
    &&& m.gas_fee@ == magnitude_bytes(tx_gas_fee(tx))
    &&& m.txn_type == tx.txn_type
    &&& m.timestamp == timestamp
    &&& m.index == index as i32
    &&& m.max_priority_fee_per_gas@ == magnitude_bytes(tx_priority_fee(tx, base, london))
    &&& m.burned_fee@ == magnitude_bytes(tx_burned_fee(tx, base, london))
    &&& m.miner_tip@ == magnitude_bytes(tx_miner_tip(tx, base, london))
}

/// `meta` holds the statistics of `block`: its successful transactions
/// newest first, fee totals over them, the smallest and largest gas price,
/// and the gas prices of the first and last transaction listed.
pub open spec fn block_meta_matches(meta: BlockMeta, block: Block) -> bool {
    let p = successful_newest_first(block.transaction_traces@);
    let base = block.base_fee();
    let london = block.is_london();
    let ts = block.timestamp_spec();
    &&& meta.hash@ == block.hash@
    &&& meta.number == block.number
    &&& meta.timestamp == ts
    &&& meta.gas_used == block.header.unwrap().gas_used
    &&& meta.base_fee_per_gas@ == magnitude_bytes(base as int)
    &&& meta.txns@.len() == p.len()
    &&& forall|i: int|
        0 <= i < p.len() ==> tx_meta_matches(#[trigger] meta.txns@[i], p[i], base, london, ts, i)
    &&& meta.txn_count == block.transaction_traces@.len() as i32
    &&& meta.min_gas_price@ == magnitude_bytes(lowest_gas_price(p) as int)
    &&& meta.max_gas_price@ == magnitude_bytes(highest_gas_price(p) as int)
    &&& meta.first_gas_price@ == (if p.len() == 0 {
        seq![0u8]
    } else {
        magnitude_bytes(tx_gas_price(p[0]) as int)
    })
    &&& meta.last_gas_price@ == (if p.len() == 0 {
        seq![0u8]
    } else {
        magnitude_bytes(tx_gas_price(p.last()) as int)
    })
    &&& meta.burned_fees@ == magnitude_bytes(total_burned_fees(p, base, london))
    &&& meta.gas_fees@ == magnitude_bytes(total_gas_fees(p))
    &&& meta.miner_tips@ == magnitude_bytes(total_miner_tips(p, base, london))
}

/// Whether a trace is of a successful transaction.
pub open spec fn is_successful(t: TransactionTrace) -> bool {
    t.status == 1
}

/// Law: the transactions listed are exactly the successful traces of the
/// block, in reverse order.
pub proof fn lemma_newest_first_is_reversed_filter(s: Seq<TransactionTrace>)
    ensures
        successful_newest_first(s) =~= s.filter(|t: TransactionTrace| is_successful(t)).reverse(),
    decreases s.len(),
{
    let p = |t: TransactionTrace| is_successful(t);
    s.lemma_filter_eq_filter_alt(p);
    if s.len() > 0 {
        lemma_newest_first_is_reversed_filter(s.drop_first());
        let rest = s.drop_first().filter(p);
        if p(s[0]) {
            assert((seq![s[0]] + rest).reverse() =~= rest.reverse().push(s[0]));
        }
    }
}

/// Law: a block summary lists exactly the traces whose status is 1
/// (succeeded), newest first, and its totals and gas-price extremes are taken
/// over those alone; a trace with any other status (such as 3, reverted) is
/// neither listed nor counted.
pub proof fn lemma_meta_counts_succeeded_traces_only(meta: BlockMeta, block: Block)
    requires
        block_meta_matches(meta, block),
    ensures
        ({
            let q = block.transaction_traces@.filter(|t: TransactionTrace| t.status == 1).reverse();
            let base = block.base_fee();
            let london = block.is_london();
            &&& meta.txns@.len() == q.len()
            &&& forall|i: int| 0 <= i < q.len() ==> {
                &&& (#[trigger] meta.txns@[i]).hash@ == q[i].hash@
                &&& meta.txns@[i].gas_used == q[i].gas_used
                &&& meta.txns@[i].gas_price@ == magnitude_bytes(tx_gas_price(q[i]) as int)
            }
            &&& meta.gas_fees@ == magnitude_bytes(total_gas_fees(q))
            &&& meta.burned_fees@ == magnitude_bytes(total_burned_fees(q, base, london))
            &&& meta.miner_tips@ == magnitude_bytes(total_miner_tips(q, base, london))
            &&& meta.min_gas_price@ == magnitude_bytes(lowest_gas_price(q) as int)
            &&& meta.max_gas_price@ == magnitude_bytes(highest_gas_price(q) as int)
        }),
{
    let s = block.transaction_traces@;
    lemma_newest_first_is_reversed_filter(s);
    let f1 = |t: TransactionTrace| is_successful(t);
    let f2 = |t: TransactionTrace| t.status == 1;
    assert(f1 =~= f2);
    assert(s.filter(f1) == s.filter(f2));
    let q = s.filter(f2).reverse();
    assert(successful_newest_first(s) == q);
    assert forall|i: int| 0 <= i < q.len() implies {
        &&& (#[trigger] meta.txns@[i]).hash@ == q[i].hash@
        &&& meta.txns@[i].gas_used == q[i].gas_used
        &&& meta.txns@[i].gas_price@ == magnitude_bytes(tx_gas_price(q[i]) as int)
    } by {
        assert(tx_meta_matches(meta.txns@[i], q[i], block.base_fee(), block.is_london(), block.timestamp_spec(), i));
    }
}

/// Law: a transaction's fee is split between the burned fee and the miner tip,
/// except for dynamic-fee transactions after London, whose tip follows their
/// declared priority fee.
pub proof fn lemma_fee_split(tx: TransactionTrace, base: nat, london: bool)
    requires
        !london || tx.txn_type != 2,
    ensures
        tx_gas_fee(tx) == tx_burned_fee(tx, base, london) + tx_miner_tip(tx, base, london),
{
    if london {
        let g = tx.gas_used as int;
        let price = tx_gas_price(tx) as int;
        assert(price * g == base * g + g * (price - base)) by (nonlinear_arith);
    }
}

/// Law: over a block without dynamic-fee transactions after London, the total
/// fee equals the total burned plus the total tipped.
pub proof fn lemma_total_fee_split(p: Seq<TransactionTrace>, base: nat, london: bool)
    requires
        forall|i: int| 0 <= i < p.len() ==> !london || (#[trigger] p[i]).txn_type != 2,
    ensures
        total_gas_fees(p) == total_burned_fees(p, base, london) + total_miner_tips(p, base, london),
    decreases p.len(),
{
    if p.len() > 0 {
        lemma_total_fee_split(p.drop_last(), base, london);
        assert(p.last() == p[p.len() - 1]);
        lemma_fee_split(p.last(), base, london);
    }
}

/// Law: the smallest and largest gas price bound every gas price listed, and
/// both are gas prices of listed transactions.
pub proof fn lemma_gas_price_extremes(p: Seq<TransactionTrace>)
    ensures
        forall|i: int|
            0 <= i < p.len() ==> lowest_gas_price(p) <= tx_gas_price(#[trigger] p[i])
                <= highest_gas_price(p),
        p.len() > 0 ==> exists|i: int| 0 <= i < p.len() && tx_gas_price(#[trigger] p[i]) == lowest_gas_price(p),
        p.len() > 0 ==> exists|i: int| 0 <= i < p.len() && tx_gas_price(#[trigger] p[i]) == highest_gas_price(p),
    decreases p.len(),
{
    if p.len() > 1 {
        let q = p.drop_last();
        lemma_gas_price_extremes(q);
        assert forall|i: int| 0 <= i < p.len() implies lowest_gas_price(p) <= tx_gas_price(
            #[trigger] p[i],
        ) <= highest_gas_price(p) by {
            if i < q.len() {
                assert(p[i] == q[i]);
            }
        }
        let j = choose|i: int| 0 <= i < q.len() && tx_gas_price(#[trigger] q[i]) == lowest_gas_price(q);
        let k = choose|i: int| 0 <= i < q.len() && tx_gas_price(#[trigger] q[i]) == highest_gas_price(q);
        assert(p[j] == q[j]);
        assert(p[k] == q[k]);
        assert(p[p.len() - 1] == p.last());
    } else if p.len() == 1 {
        assert(tx_gas_price(p[0]) == lowest_gas_price(p));
    }
}

/// Law: the listed transactions are at most as many as the traces.
pub proof fn lemma_newest_first_len(s: Seq<TransactionTrace>)
    ensures
        successful_newest_first(s).len() <= s.len(),
    decreases s.len(),
{
    if s.len() > 0 {
        lemma_newest_first_len(s.drop_first());
    }
}

/// Amounts computed for one transaction.
struct TxFees {
    gas_price: BigNum,
    gas_fee: BigNum,
    burned_fee: BigNum,
    priority_fee: BigNum,
    miner_tip: BigNum,
}

fn optional_bytes(b: &Option<Vec<u8>>) -> (r: Vec<u8>)
    ensures
        r@ == opt_bytes(*b),
{
    match b {
        Some(v) => slice_to_vec(v.as_slice()),
        None => Vec::new(),
    }
}

fn transaction_fees(tx: &TransactionTrace, base_fee: &BigNum, london: bool) -> (f: TxFees)
    requires
        base_fee@ >= 0,
    ensures
        f.gas_price@ == tx_gas_price(*tx),
        f.gas_fee@ == tx_gas_fee(*tx),
        f.burned_fee@ == tx_burned_fee(*tx, base_fee@ as nat, london),
        f.priority_fee@ == tx_priority_fee(*tx, base_fee@ as nat, london),
        f.miner_tip@ == tx_miner_tip(*tx, base_fee@ as nat, london),
{
    let price_bytes = optional_bytes(&tx.gas_price);
    let gas_price = big_from_unsigned_be(price_bytes.as_slice());
    let gas_used = big_from_u64(tx.gas_used);
    let gas_fee = big_mul(&gas_price, &gas_used);
    let burned_fee = if london {
        big_mul(base_fee, &gas_used)
    } else {
        big_from_u64(0)
    };
    let priority_fee = if !london {
        gas_price.duplicate()
    } else if tx.txn_type == 2 {
        let cap = optional_bytes(&tx.max_priority_fee_per_gas);
        big_from_unsigned_be(cap.as_slice())
    } else {
        big_sub(&gas_price, base_fee)
    };
    let miner_tip = if !london {
        gas_fee.duplicate()
    } else {
        big_mul(&gas_used, &priority_fee)
    };
    TxFees { gas_price, gas_fee, burned_fee, priority_fee, miner_tip }
}

fn transaction_meta(
    tx: &TransactionTrace,
    fees: &TxFees,
    timestamp: i64,
    index: usize,
) -> (m: TransactionMeta)
    ensures
        m.hash@ == tx.hash@,
        m.gas_used == tx.gas_used,
        m.gas_price@ == magnitude_bytes(fees.gas_price@),
        m.gas_fee@ == magnitude_bytes(fees.gas_fee@),
        m.txn_type == tx.txn_type,
        m.timestamp == timestamp,
        m.index == index as i32,
        m.max_priority_fee_per_gas@ == magnitude_bytes(fees.priority_fee@),
        m.burned_fee@ == magnitude_bytes(fees.burned_fee@),
        m.miner_tip@ == magnitude_bytes(fees.miner_tip@),
{
    TransactionMeta {
        hash: slice_to_vec(tx.hash.as_slice()),
        gas_used: tx.gas_used,
        gas_price: big_magnitude_be(&fees.gas_price),
        gas_fee: big_magnitude_be(&fees.gas_fee),
        txn_type: tx.txn_type,
        timestamp,
        index: #[verifier::truncate] (index as i32),
        max_priority_fee_per_gas: big_magnitude_be(&fees.priority_fee),
        burned_fee: big_magnitude_be(&fees.burned_fee),
        miner_tip: big_magnitude_be(&fees.miner_tip),
    }
}

/// Summarises a block: per-transaction fees of its successful transactions
/// (listed newest first), fee totals, and gas-price extremes.
pub fn map_block_to_meta(block: Block) -> (meta: BlockMeta)
    requires
        block.well_formed(),
    ensures
        block_meta_matches(meta, block),
{
    let header = block.header.as_ref().unwrap();
    let base_fee_per_gas_bytes = optional_bytes(&header.base_fee_per_gas);
    let base_fee_per_gas = big_from_unsigned_be(base_fee_per_gas_bytes.as_slice());
    let is_london_fork = base_fee_per_gas_bytes.len() != 0;
    let timestamp = *header.timestamp.as_ref().unwrap();

    let ghost base = block.base_fee();
    let ghost london = block.is_london();
    let ghost traces = block.transaction_traces@;
    assert(base_fee_per_gas@ == base);
    assert(is_london_fork == london);

    let mut gas_fees = big_from_u64(0);
    let mut miner_tips = big_from_u64(0);
    let mut burned_fees = big_from_u64(0);
    let mut min_gas_price = big_from_u64(0);
    let mut max_gas_price = big_from_u64(0);
    let mut comparison_started = false;
    let mut txns: Vec<TransactionMeta> = Vec::new();

    let n = block.transaction_traces.len();
    let mut i: usize = n;
    let mut index: usize = 0;
    assert(traces.subrange(n as int, n as int) =~= Seq::<TransactionTrace>::empty());
    while i > 0
        invariant
            n == traces.len(),
            traces == block.transaction_traces@,
            i <= n,
            base_fee_per_gas@ == base,
            is_london_fork == london,
            base >= 0,
            ({
                let p = successful_newest_first(traces.subrange(i as int, n as int));
                &&& index == p.len()
                &&& txns@.len() == p.len()
                &&& forall|k: int|
                    0 <= k < p.len() ==> tx_meta_matches(
                        #[trigger] txns@[k],
                        p[k],
                        base,
                        london,
                        timestamp,
                        k,
                    )
                &&& gas_fees@ == total_gas_fees(p)
                &&& burned_fees@ == total_burned_fees(p, base, london)
                &&& miner_tips@ == total_miner_tips(p, base, london)
                &&& comparison_started == (p.len() > 0)
                &&& min_gas_price@ == lowest_gas_price(p)
                &&& max_gas_price@ == highest_gas_price(p)
            }),
        decreases i,
    {
        let ghost old_p = successful_newest_first(traces.subrange(i as int, n as int));
        i = i - 1;
        let ghost s = traces.subrange(i as int, n as int);
        assert(s.drop_first() =~= traces.subrange(i as int + 1, n as int));
        assert(s[0] == traces[i as int]);
        let tx = &block.transaction_traces[i];
        proof {
            lemma_newest_first_len(traces.subrange(i as int + 1, n as int));
        }
        if tx.status == 1 {
            let fees = transaction_fees(tx, &base_fee_per_gas, is_london_fork);
            let meta = transaction_meta(tx, &fees, timestamp, index);
            let ghost p = old_p.push(*tx);
            assert(p.drop_last() =~= old_p);
            gas_fees = big_add(&gas_fees, &fees.gas_fee);
            miner_tips = big_add(&miner_tips, &fees.miner_tip);
            if is_london_fork {
                burned_fees = big_add(&burned_fees, &fees.burned_fee);
            } else {
                assert(total_burned_fees(p, base, london) == total_burned_fees(old_p, base, london));
            }
            if comparison_started == false {
                comparison_started = true;
                min_gas_price = fees.gas_price.duplicate();
                max_gas_price = fees.gas_price.duplicate();
            } else {
                if big_lt(&fees.gas_price, &min_gas_price) {
                    min_gas_price = fees.gas_price.duplicate();
                }
                if big_lt(&max_gas_price, &fees.gas_price) {
                    max_gas_price = fees.gas_price.duplicate();
                }
            }
            let ghost old_txns = txns@;
            txns.push(meta);
            index = index + 1;
            assert forall|k: int| 0 <= k < p.len() implies tx_meta_matches(
                #[trigger] txns@[k],
                p[k],
                base,
                london,
                timestamp,
                k,
            ) by {
                if k < old_p.len() {
                    assert(txns@[k] == old_txns[k]);
                    assert(p[k] == old_p[k]);
                } else {
                    assert(txns@[k] == meta);
                    assert(p[k] == *tx);
                }
            }
        }
    }
    assert(traces.subrange(0, n as int) =~= traces);

    let mut first_gas_price: Vec<u8> = vec![0u8];
    let mut last_gas_price: Vec<u8> = vec![0u8];
    assert(first_gas_price@ =~= seq![0u8]);
    assert(last_gas_price@ =~= seq![0u8]);
    let ghost p = successful_newest_first(traces);
    if txns.len() != 0 {
        first_gas_price = slice_to_vec(txns[0].gas_price.as_slice());
        last_gas_price = slice_to_vec(txns[txns.len() - 1].gas_price.as_slice());
        assert(tx_meta_matches(txns@[0], p[0], base, london, timestamp, 0));
        let ghost last = txns@.len() - 1;
        assert(tx_meta_matches(txns@[last], p[last], base, london, timestamp, last));
    }
    assert(timestamp == block.timestamp_spec());

    BlockMeta {
        hash: slice_to_vec(block.hash.as_slice()),
        number: block.number,
        timestamp,
        gas_used: header.gas_used,
        base_fee_per_gas: big_magnitude_be(&base_fee_per_gas),
        txns,
        txn_count: #[verifier::truncate] (n as i32),
        min_gas_price: big_magnitude_be(&min_gas_price),
        max_gas_price: big_magnitude_be(&max_gas_price),
        first_gas_price,
        last_gas_price,
        burned_fees: big_magnitude_be(&burned_fees),
        gas_fees: big_magnitude_be(&gas_fees),
        miner_tips: big_magnitude_be(&miner_tips),
    }
}

} // verus!
