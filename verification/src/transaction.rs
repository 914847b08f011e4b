//! The status reports of a submitted transaction, and the sequence of them
//! that ends itself at the first report after which none can follow.

use crate::json::{
    option_view, optional, optional_spec, required, required_spec, required_value,
    required_value_spec, str_eq, Decode, DecodeError, JsonValue, JsonView,
};
use crate::unsigned_number_as_string;
use std::collections::VecDeque;
use std::marker::PhantomData;
use vstd::prelude::*;

verus! {

/// The block that a transaction was seen in.
#[derive(Debug, Clone, PartialEq, Eq)]
pub struct TransactionBlockDetails<Hash> {
    hash: Hash,
    index: u64,
}

/// The mathematical value of a [`TransactionBlockDetails`].
pub struct TransactionBlockDetailsView<Hash> {
    pub hash: Hash,
    pub index: u64,
}

impl<Hash: View> View for TransactionBlockDetails<Hash> {
    type V = TransactionBlockDetailsView<Hash::V>;

    closed spec fn view(&self) -> TransactionBlockDetailsView<Hash::V> {
        TransactionBlockDetailsView { hash: self.hash@, index: self.index }
    }
}

impl<Hash: View> TransactionBlockDetails<Hash> {
    /// The block with the given hash, and the place of the transaction in
    /// it.
    pub fn new(hash: Hash, index: u64) -> (details: Self)
        ensures
            details@ == (TransactionBlockDetailsView { hash: hash@, index }),
    {
        TransactionBlockDetails { hash, index }
    }

    /// The hash of the block.
    pub fn hash(&self) -> (hash: &Hash)
        ensures
            hash@ == self@.hash,
    {
        &self.hash
    }

    /// The place of the transaction in the block.
    pub fn index(&self) -> (index: u64)
        ensures
            index == self@.index,
    {
        self.index
    }
}

/// The place that the `index` field of a document stands for: the field
/// must be there, as a number or as a string of decimal digits.
pub open spec fn index_spec(v: JsonView) -> Option<u64> {
    match required_value_spec(v, "index"@) {
        Some(index) => match unsigned_number_as_string::number_spec::<u64>(index) {
            Some(n) => Some(n as u64),
            None => None,
        },
        None => None,
    }
}

impl<Hash: Decode> Decode for TransactionBlockDetails<Hash> {
    open spec fn decode_spec(v: JsonView) -> Option<TransactionBlockDetailsView<Hash::V>> {
        match (required_spec::<Hash>(v, "hash"@), index_spec(v)) {
            (Some(hash), Some(index)) => Some(TransactionBlockDetailsView { hash, index }),
            _ => None,
        }
    }

    fn decode(v: &JsonValue) -> (r: Result<TransactionBlockDetails<Hash>, DecodeError>) {
        let hash = required::<Hash>(v, "hash")?;
        let index = unsigned_number_as_string::deserialize::<u64>(required_value(v, "index")?)?;
        Ok(TransactionBlockDetails { hash, index })
    }
}

/// A report on the progress of a submitted transaction.
#[allow(inconsistent_fields)]
#[derive(Debug, Clone, PartialEq, Eq)]
pub enum TransactionStatus<Hash> {
    /// The transaction is in the queue.
    Validated,
    /// The transaction has been sent to other nodes.
    Broadcasted {
        /// The number of peers it has been sent to.
        num_peers: u32,
    },
    /// The transaction is in a block of the best chain, or, with no block,
    /// is in none any more.
    BestChainBlockIncluded {
        /// The block it has been seen in.
        block: Option<TransactionBlockDetails<Hash>>,
    },
    /// The transaction is in a block that is finalized.
    Finalized {
        /// The block it has been seen in.
        block: TransactionBlockDetails<Hash>,
    },
    /// Something went wrong in the node.
    Error {
        /// What went wrong.
        error: String,
    },
    /// The transaction is invalid.
    Invalid {
        /// Why it is invalid.
        error: String,
    },
    /// The transaction was dropped.
    Dropped {
        /// Whether it had been sent to other nodes before.
        broadcasted: bool,
        /// Why it was dropped.
        error: String,
    },
}

/// The mathematical value of a [`TransactionStatus`].
#[allow(inconsistent_fields)]
pub enum TransactionStatusView<Hash> {
    Validated,
    Broadcasted { num_peers: u32 },
    BestChainBlockIncluded { block: Option<TransactionBlockDetailsView<Hash>> },
    Finalized { block: TransactionBlockDetailsView<Hash> },
    Error { error: Seq<char> },
    Invalid { error: Seq<char> },
    Dropped { broadcasted: bool, error: Seq<char> },
}

impl<Hash> TransactionStatusView<Hash> {
    /// Whether no report can follow this one: the transaction is finalized,
    /// failed, invalid or dropped.
    pub open spec fn is_terminal(self) -> bool {
        self is Finalized || self is Error || self is Invalid || self is Dropped
    }
}

impl<Hash: View> View for TransactionStatus<Hash> {
    type V = TransactionStatusView<Hash::V>;

    open spec fn view(&self) -> TransactionStatusView<Hash::V> {
        match self {
            TransactionStatus::Validated => TransactionStatusView::Validated,
            TransactionStatus::Broadcasted { num_peers } => TransactionStatusView::Broadcasted {
                num_peers: *num_peers,
            },
            TransactionStatus::BestChainBlockIncluded { block } =>
                TransactionStatusView::BestChainBlockIncluded { block: option_view(*block) },
            TransactionStatus::Finalized { block } => TransactionStatusView::Finalized {
                block: block@,
            },
            TransactionStatus::Error { error } => TransactionStatusView::Error { error: error@ },
            TransactionStatus::Invalid { error } => TransactionStatusView::Invalid {
                error: error@,
            },
            TransactionStatus::Dropped { broadcasted, error } => TransactionStatusView::Dropped {
                broadcasted: *broadcasted,
                error: error@,
            },
        }
    }
}

impl<Hash: View> TransactionStatus<Hash> {
    /// Whether no report can follow this one.
    pub fn is_terminal(&self) -> (r: bool)
        ensures
            r == self@.is_terminal(),
    {
        match self {
            TransactionStatus::Finalized { .. } => true,
            TransactionStatus::Error { .. } => true,
            TransactionStatus::Invalid { .. } => true,
            TransactionStatus::Dropped { .. } => true,
            _ => false,
        }
    }
}

impl<Hash: Decode> Decode for TransactionStatus<Hash> {
    /// A report is an object. Its `event` field names the status, and the
    /// other fields of the same object are what that status carries.
    open spec fn decode_spec(v: JsonView) -> Option<TransactionStatusView<Hash::V>> {
        match required_spec::<String>(v, "event"@) {
            Some(kind) => if kind == "validated"@ {
                Some(TransactionStatusView::Validated)
            } else if kind == "broadcasted"@ {
                match required_spec::<u32>(v, "num_peers"@) {
                    Some(num_peers) => Some(TransactionStatusView::Broadcasted { num_peers }),
                    None => None,
                }
            } else if kind == "bestChainBlockIncluded"@ {
                match optional_spec::<TransactionBlockDetails<Hash>>(v, "block"@) {
                    Some(block) => Some(TransactionStatusView::BestChainBlockIncluded { block }),
                    None => None,
                }
            } else if kind == "finalized"@ {
                match required_spec::<TransactionBlockDetails<Hash>>(v, "block"@) {
                    Some(block) => Some(TransactionStatusView::Finalized { block }),
                    None => None,
                }
            } else if kind == "error"@ {
                match required_spec::<String>(v, "error"@) {
                    Some(error) => Some(TransactionStatusView::Error { error }),
                    None => None,
                }
            } else if kind == "invalid"@ {
                match required_spec::<String>(v, "error"@) {
                    Some(error) => Some(TransactionStatusView::Invalid { error }),
                    None => None,
                }
            } else if kind == "dropped"@ {
                match (required_spec::<bool>(v, "broadcasted"@), required_spec::<String>(v, "error"@)) {
                    (Some(broadcasted), Some(error)) => Some(
                        TransactionStatusView::Dropped { broadcasted, error },
                    ),
                    _ => None,
                }
            } else {
                None
            },
            None => None,
        }
    }

    fn decode(v: &JsonValue) -> (r: Result<TransactionStatus<Hash>, DecodeError>) {
        let tag = required::<String>(v, "event")?;
        let kind = tag.as_str();
        if str_eq(kind, "validated") {
            Ok(TransactionStatus::Validated)
        } else if str_eq(kind, "broadcasted") {
            let num_peers = required::<u32>(v, "num_peers")?;
            Ok(TransactionStatus::Broadcasted { num_peers })
        } else if str_eq(kind, "bestChainBlockIncluded") {
            let block = optional::<TransactionBlockDetails<Hash>>(v, "block")?;
            Ok(TransactionStatus::BestChainBlockIncluded { block })
        } else if str_eq(kind, "finalized") {
            let block = required::<TransactionBlockDetails<Hash>>(v, "block")?;
            Ok(TransactionStatus::Finalized { block })
        } else if str_eq(kind, "error") {
            let error = required::<String>(v, "error")?;
            Ok(TransactionStatus::Error { error })
        } else if str_eq(kind, "invalid") {
            let error = required::<String>(v, "error")?;
            Ok(TransactionStatus::Invalid { error })
        } else if str_eq(kind, "dropped") {
            let broadcasted = required::<bool>(v, "broadcasted")?;
            let error = required::<String>(v, "error")?;
            Ok(TransactionStatus::Dropped { broadcasted, error })
        } else {
            Err(DecodeError)
        }
    }
}

/// A report is terminal exactly when its `event` field names one of the
/// four statuses after which none can follow.
pub proof fn lemma_terminal_kinds<Hash: Decode>(v: JsonView)
    requires
        TransactionStatus::<Hash>::decode_spec(v) is Some,
    ensures
        ({
            let kind = required_spec::<String>(v, "event"@)->0;
            TransactionStatus::<Hash>::decode_spec(v)->0.is_terminal() <==> {
                ||| kind == "finalized"@
                ||| kind == "error"@
                ||| kind == "invalid"@
                ||| kind == "dropped"@
            }
        }),
{
    reveal_strlit("validated");
    reveal_strlit("broadcasted");
    reveal_strlit("bestChainBlockIncluded");
    reveal_strlit("finalized");
    reveal_strlit("error");
    reveal_strlit("invalid");
    reveal_strlit("dropped");
    assert("validated"@.len() == 9);
    assert("broadcasted"@.len() == 11);
    assert("bestChainBlockIncluded"@.len() == 22);
    assert("finalized"@.len() == 9);
    assert("error"@.len() == 5);
    assert("invalid"@.len() == 7);
    assert("dropped"@.len() == 7);
    assert("validated"@[0] != "finalized"@[0]);
    assert("invalid"@[0] != "dropped"@[0]);
}

/// What the raw subscription hands over for one report: the report, or the
/// failure to read it.
pub type RawReport<Hash, E> = Result<TransactionStatus<Hash>, E>;

/// Whether a raw report closes the sequence: it was read, and no report can
/// follow it.
pub open spec fn closes<Hash: View, E>(report: RawReport<Hash, E>) -> bool {
    match report {
        Ok(status) => status@.is_terminal(),
        Err(_) => false,
    }
}

/// What of a raw sequence is handed on: every report up to the first that
/// closes the sequence, that one included, and nothing after it.
pub open spec fn delivered<Hash: View, E>(raw: Seq<RawReport<Hash, E>>) -> Seq<RawReport<Hash, E>>
    decreases raw.len(),
{
    if raw.len() == 0 {
        Seq::empty()
    } else if closes(raw[0]) {
        seq![raw[0]]
    } else {
        seq![raw[0]] + delivered(raw.drop_first())
    }
}

/// What to do when the next report is asked for.
#[derive(Debug, Clone, Copy, PartialEq, Eq)]
pub enum NextStep {
    /// Ask the raw subscription, and show what it gives to
    /// [`TransactionSubscription::observe`].
    Poll,
    /// The sequence has ended: do not touch the raw subscription.
    End,
}

/// The state of a sequence of status reports that ends itself: open until
/// a report has been handed on after which none can follow, closed from
/// then on.
#[derive(Debug)]
pub struct TransactionSubscription<Hash> {
    done: bool,
    _marker: PhantomData<Hash>,
}

impl<Hash: View> TransactionSubscription<Hash> {
    /// Whether the sequence has ended.
    pub closed spec fn is_closed(&self) -> bool {
        self.done
    }

    /// An open sequence.
    pub fn new() -> (sub: Self)
        ensures
            !sub.is_closed(),
    {
        TransactionSubscription { done: false, _marker: PhantomData }
    }

    /// Whether the sequence has ended.
    pub fn closed(&self) -> (r: bool)
        ensures
            r == self.is_closed(),
    {
        self.done
    }

    /// What to do when the next report is asked for: a closed sequence
    /// ends at once, an open one asks the raw subscription.
    pub fn step(&self) -> (r: NextStep)
        ensures
            r == if self.is_closed() {
                NextStep::End
            } else {
                NextStep::Poll
            },
    {
        if self.done {
            NextStep::End
        } else {
            NextStep::Poll
        }
    }

    /// Takes note of a report that the raw subscription gave and that is
    /// handed on as it is: the sequence closes behind a report that was
    /// read and after which none can follow, and is left as it was by any
    /// other.
    pub fn observe<E>(&mut self, report: &RawReport<Hash, E>)
        ensures
            final(self).is_closed() == (old(self).is_closed() || closes(*report)),
    {
        match report {
            Ok(status) => {
                if status.is_terminal() {
                    self.done = true;
                }
            },
            Err(_) => {},
        }
    }

    /// The next report of the sequence over a raw sequence held in memory,
    /// or the end. A closed sequence ends without touching the raw one. An
    /// open one takes the first raw report, hands it on unchanged, and
    /// closes behind it where no report can follow; where the raw sequence
    /// is at its end it ends too, and stays open.
    pub fn next<E>(&mut self, raw: &mut VecDeque<RawReport<Hash, E>>) -> (r: Option<
        RawReport<Hash, E>,
    >)
        ensures
            old(self).is_closed() ==> {
                &&& r is None
                &&& final(raw)@ == old(raw)@
                &&& final(self).is_closed()
            },
            !old(self).is_closed() && old(raw)@.len() == 0 ==> {
                &&& r is None
                &&& final(raw)@ == old(raw)@
                &&& !final(self).is_closed()
            },
            !old(self).is_closed() && old(raw)@.len() > 0 ==> {
                &&& r == Some(old(raw)@[0])
                &&& final(raw)@ == old(raw)@.drop_first()
                &&& final(self).is_closed() == closes(old(raw)@[0])
            },
    {
        match self.step() {
            NextStep::End => None,
            NextStep::Poll => {
                let polled = raw.pop_front();
                match &polled {
                    Some(report) => {
                        self.observe(report);
                    },
                    None => {},
                }
                polled
            },
        }
    }

    /// Every report that the sequence still has over a raw sequence held in
    /// memory. A closed sequence has none and leaves the raw one untouched;
    /// an open one hands on what [`delivered`] says and takes that much off
    /// the raw one.
    pub fn drain<E>(&mut self, raw: &mut VecDeque<RawReport<Hash, E>>) -> (out: Vec<
        RawReport<Hash, E>,
    >)
        ensures
            old(self).is_closed() ==> out@.len() == 0 && final(self).is_closed(),
            !old(self).is_closed() ==> {
                &&& out@ == delivered(old(raw)@)
                &&& final(self).is_closed() <==> exists|i: int|
                    0 <= i < out@.len() && closes(#[trigger] out@[i])
            },
            final(raw)@ == old(raw)@.skip(out@.len() as int),
    {
        let ghost began_closed = self.is_closed();
        let mut out: Vec<RawReport<Hash, E>> = Vec::new();
        assert(old(raw)@.skip(0) =~= old(raw)@);
        loop
            invariant
                began_closed == old(self).is_closed(),
                began_closed ==> out@.len() == 0 && self.is_closed(),
                !began_closed && !self.is_closed() ==> out@ + delivered(raw@) == delivered(
                    old(raw)@,
                ),
                !began_closed && self.is_closed() ==> out@ == delivered(old(raw)@),
                !began_closed ==> (self.is_closed() <==> exists|i: int|
                    0 <= i < out@.len() && closes(#[trigger] out@[i])),
                out@.len() <= old(raw)@.len(),
                raw@ == old(raw)@.skip(out@.len() as int),
            ensures
                !began_closed ==> out@ == delivered(old(raw)@),
            decreases raw@.len(),
        {
            let ghost before = raw@;
            let ghost had = out@;
            let ghost was_closed = self.is_closed();
            match self.next(raw) {
                Some(report) => {
                    out.push(report);
                    proof {
                        assert(before.drop_first() =~= old(raw)@.skip(out@.len() as int));
                        if closes(report) {
                            assert(out@[out@.len() - 1] == report);
                            assert(out@ =~= had + seq![report]);
                        } else {
                            assert(out@ + delivered(raw@) =~= had + delivered(before));
                            assert forall|i: int| 0 <= i < out@.len() implies !closes(
                                #[trigger] out@[i],
                            ) by {
                                if i < had.len() {
                                    assert(had[i] == out@[i]);
                                }
                            }
                        }
                    }
                },
                None => {
                    proof {
                        if !was_closed {
                            assert(out@ + delivered(raw@) =~= out@);
                        }
                    }
                    break ;
                },
            }
        }
        out
    }
}

/// Nothing that is handed on comes after a report that closes the
/// sequence: such a report is the last one.
pub proof fn lemma_delivered_ends_at_close<Hash: View, E>(raw: Seq<RawReport<Hash, E>>, i: int)
    requires
        0 <= i < delivered(raw).len(),
        closes(delivered(raw)[i]),
    ensures
        i == delivered(raw).len() - 1,
    decreases raw.len(),
{
    if raw.len() > 0 && !closes(raw[0]) {
        if i > 0 {
            lemma_delivered_ends_at_close(raw.drop_first(), i - 1);
        }
    }
}

/// What is handed on is a beginning of the raw sequence.
pub proof fn lemma_delivered_is_prefix<Hash: View, E>(raw: Seq<RawReport<Hash, E>>)
    ensures
        delivered(raw).len() <= raw.len(),
        delivered(raw) == raw.take(delivered(raw).len() as int),
    decreases raw.len(),
{
    if raw.len() == 0 {
        assert(delivered(raw) =~= raw.take(0));
    } else if closes(raw[0]) {
        assert(delivered(raw) =~= raw.take(1));
    } else {
        lemma_delivered_is_prefix(raw.drop_first());
        let rest = delivered(raw.drop_first());
        let n = rest.len() as int;
        assert(delivered(raw) =~= raw.take(n + 1)) by {
            assert(raw.drop_first().take(n) =~= raw.take(n + 1).drop_first());
        }
    }
}

} // verus!
