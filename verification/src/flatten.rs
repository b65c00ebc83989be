//! Flattening: the instructions of a transaction as one sequence.
//!
//! An inner instruction ran as a side effect of a top-level one. After flattening nothing
//! tells the two apart: a filter or a rule sees an instruction, not where it came from.

use crate::errors::DecodeError;
use crate::transaction::{
    EncodedTransaction, InnerInstructions, Instruction, Message, MessageInstruction,
    TransactionRecord,
};
use vstd::prelude::*;

verus! {

/// The instructions of all groups, group after group.
pub open spec fn inner_listed(groups: Seq<InnerInstructions>) -> Seq<MessageInstruction>
    decreases groups.len(),
{
    if groups.len() == 0 {
        Seq::empty()
    } else {
        inner_listed(groups.drop_last()) + groups.last().instructions@
    }
}

/// The inner instructions that the record of a transaction holds, group after group; none
/// where the record holds no groups.
pub open spec fn inner_of(tx: &TransactionRecord) -> Seq<MessageInstruction> {
    match tx.meta {
        Some(meta) => match meta.inner_instructions {
            Some(groups) => inner_listed(groups@),
            None => Seq::empty(),
        },
        None => Seq::empty(),
    }
}

/// Whether every instruction of `list` is decoded.
pub open spec fn all_decoded(list: Seq<MessageInstruction>) -> bool {
    forall|i: int| 0 <= i < list.len() ==> (#[trigger] list[i]) is Decoded
}

/// The decoded instructions of `list`, in order.
pub open spec fn decoded(list: Seq<MessageInstruction>) -> Seq<Instruction> {
    Seq::new(list.len(), |i: int| list[i]->Decoded_0)
}

/// What flattening `tx` gives: every top-level instruction, then every inner instruction,
/// group after group and in the order of each group; or the reason why the transaction
/// cannot be read.
pub open spec fn flattened(tx: &TransactionRecord) -> Result<Seq<Instruction>, DecodeError> {
    match tx.transaction {
        EncodedTransaction::Binary => Err(DecodeError::NotJson),
        EncodedTransaction::Json(Message::Raw(_)) => Err(DecodeError::RawMessage),
        EncodedTransaction::Json(Message::Parsed(message)) => {
            let listed = message.instructions@ + inner_of(tx);
            if all_decoded(listed) {
                Ok(decoded(listed))
            } else {
                Err(DecodeError::CompiledInstruction)
            }
        },
    }
}

/// The instructions behind the references of `list`.
pub open spec fn referents(list: Seq<&Instruction>) -> Seq<Instruction> {
    Seq::new(list.len(), |i: int| *list[i])
}

/// Appends the instructions of `list` to `out`. Stops at the first one that is not decoded
/// and says so by returning `false`.
fn append_decoded<'a>(list: &'a Vec<MessageInstruction>, out: &mut Vec<&'a Instruction>) -> (ok:
    bool)
    ensures
        ok == all_decoded(list@),
        ok ==> referents(final(out)@) == referents(old(out)@) + decoded(list@),
{
    let ghost before = referents(out@);
    let mut i: usize = 0;
    while i < list.len()
        invariant
            i <= list.len(),
            forall|j: int| 0 <= j < i ==> (#[trigger] list@[j]) is Decoded,
            referents(out@) == before + decoded(list@.take(i as int)),
        decreases list.len() - i,
    {
        match &list[i] {
            MessageInstruction::Decoded(ix) => {
                let ghost earlier = out@;
                out.push(ix);
                proof {
                    let target = before + decoded(list@.take(i + 1));
                    assert(referents(earlier).len() == before.len() + i);
                    assert forall|k: int| 0 <= k < target.len() implies referents(out@)[k]
                        == target[k] by {
                        if k < earlier.len() {
                            assert(referents(earlier)[k] == (before + decoded(
                                list@.take(i as int),
                            ))[k]);
                        }
                    }
                }
            },
            MessageInstruction::Compiled(_) => {
                return false;
            },
        }
        i = i + 1;
    }
    true
}

/// Flattens a transaction: every top-level instruction, then every inner instruction of
/// every group, in order.
///
/// A transaction that is not in the JSON encoding, whose message is raw, or that lists an
/// instruction which is not decoded cannot be read. That is a failure of this transaction
/// only.
pub fn flatten<'a>(tx: &'a TransactionRecord) -> (result: Result<
    Vec<&'a Instruction>,
    DecodeError,
>)
    ensures
        match result {
            Ok(list) => flattened(tx) == Ok::<Seq<Instruction>, DecodeError>(referents(list@)),
            Err(error) => flattened(tx) == Err::<Seq<Instruction>, DecodeError>(error),
        },
{
    match &tx.transaction {
        EncodedTransaction::Binary => Err(DecodeError::NotJson),
        EncodedTransaction::Json(message) => match message {
            Message::Raw(_) => Err(DecodeError::RawMessage),
            Message::Parsed(message) => {
                let mut out: Vec<&Instruction> = Vec::new();
                if !append_decoded(&message.instructions, &mut out) {
                    assert(!(all_decoded(message.instructions@ + inner_of(tx)))) by {
                        let i = choose|i: int|
                            0 <= i < message.instructions@.len() && !(
                            #[trigger] message.instructions@[i] is Decoded);
                        assert((message.instructions@ + inner_of(tx))[i]
                            == message.instructions@[i]);
                    }
                    return Err(DecodeError::CompiledInstruction);
                }
                match &tx.meta {
                    Some(meta) => match &meta.inner_instructions {
                        Some(groups) => {
                            if !append_groups(groups, &mut out) {
                                proof {
                                    lemma_all_decoded_concat(message.instructions@, inner_of(tx));
                                }
                                return Err(DecodeError::CompiledInstruction);
                            }
                        },
                        None => {},
                    },
                    None => {},
                }
                proof {
                    lemma_all_decoded_concat(message.instructions@, inner_of(tx));
                    lemma_decoded_concat(message.instructions@, inner_of(tx));
                }
                Ok(out)
            },
        },
    }
}

/// Appends the instructions of all groups to `out`, group after group. Stops at the first
/// instruction that is not decoded and says so by returning `false`.
fn append_groups<'a>(groups: &'a Vec<InnerInstructions>, out: &mut Vec<&'a Instruction>) -> (ok:
    bool)
    ensures
        ok == all_decoded(inner_listed(groups@)),
        ok ==> referents(final(out)@) == referents(old(out)@) + decoded(inner_listed(groups@)),
{
    let ghost before = referents(out@);
    let mut g: usize = 0;
    while g < groups.len()
        invariant
            g <= groups.len(),
            all_decoded(inner_listed(groups@.take(g as int))),
            referents(out@) == before + decoded(inner_listed(groups@.take(g as int))),
        decreases groups.len() - g,
    {
        let ghost done = inner_listed(groups@.take(g as int));
        proof {
            assert(groups@.take(g + 1).drop_last() =~= groups@.take(g as int));
            lemma_all_decoded_concat(done, groups@[g as int].instructions@);
            lemma_decoded_concat(done, groups@[g as int].instructions@);
        }
        if !append_decoded(&groups[g].instructions, out) {
            proof {
                lemma_inner_listed_prefix(groups@, g + 1);
            }
            return false;
        }
        g = g + 1;
    }
    assert(groups@.take(g as int) == groups@);
    true
}

/// A concatenation is all decoded exactly when both parts are.
pub proof fn lemma_all_decoded_concat(a: Seq<MessageInstruction>, b: Seq<MessageInstruction>)
    ensures
        all_decoded(a + b) <==> all_decoded(a) && all_decoded(b),
{
    if all_decoded(a + b) {
        assert forall|i: int| 0 <= i < a.len() implies (#[trigger] a[i]) is Decoded by {
            assert((a + b)[i] == a[i]);
        }
        assert forall|i: int| 0 <= i < b.len() implies (#[trigger] b[i]) is Decoded by {
            assert((a + b)[a.len() + i] == b[i]);
        }
    }
}

/// Decoding a concatenation decodes its parts.
pub proof fn lemma_decoded_concat(a: Seq<MessageInstruction>, b: Seq<MessageInstruction>)
    ensures
        decoded(a + b) == decoded(a) + decoded(b),
{
}

/// Where the first `n` groups hold an instruction that is not decoded, so do all groups.
proof fn lemma_inner_listed_prefix(groups: Seq<InnerInstructions>, n: int)
    requires
        0 <= n <= groups.len(),
        !all_decoded(inner_listed(groups.take(n))),
    ensures
        !all_decoded(inner_listed(groups)),
    decreases groups.len() - n,
{
    if n < groups.len() {
        assert(groups.take(n + 1).drop_last() =~= groups.take(n));
        lemma_all_decoded_concat(
            inner_listed(groups.take(n)),
            groups.take(n + 1).last().instructions@,
        );
        lemma_inner_listed_prefix(groups, n + 1);
    } else {
        assert(groups.take(n) == groups);
    }
}

} // verus!
