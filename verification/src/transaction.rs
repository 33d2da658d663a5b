//! The transactional extension: the coordinator's decisions and the owned
//! transaction's discharge bookkeeping.

use vstd::prelude::*;
use vstd::string::StringExecFns;
use crate::definitions::{AmqpError, ErrorCondition};
use crate::definitions;

verus! {

broadcast use vstd::seq::group_seq_axioms;

/// Declares a transaction on the control link.
#[derive(PartialEq, Eq, Debug)]
pub struct Declare {
    /// The global id of a distributed transaction; not implemented here.
    pub global_id: Option<Vec<u8>>,
}

/// Discharges a transaction on the control link.
#[derive(PartialEq, Eq, Debug)]
pub struct Discharge {
    /// The transaction being discharged.
    pub txn_id: Vec<u8>,
    /// Whether the work of the transaction must be rolled back.
    pub fail: bool,
}

/// The body of a message on the control link.
#[derive(PartialEq, Eq, Debug)]
pub enum ControlMessageBody {
    /// A declare request.
    Declare(Declare),
    /// A discharge request.
    Discharge(Discharge),
}

/// Whether the loop driving an endpoint should go on.
#[derive(Clone, Copy, PartialEq, Eq, Structural, Debug)]
pub enum Running {
    /// Keep driving.
    Continue,
    /// Stop.
    Stop,
}

/// The transaction coordinator: the receiver end of a control link that
/// answers declare and discharge requests. The channels and tasks that
/// feed it live outside; the decisions are here.
pub struct TxnCoordinator {
    /// The transactions declared and not yet discharged, without
    /// duplicates.
    pub pending_txns: Vec<Vec<u8>>,
    /// The number the next allocated transaction id is minted from.
    pub next_txn: u64,
}

impl TxnCoordinator {
    /// A coordinator with no pending transactions.
    pub fn new() -> (r: Self)
        ensures
            r.pending_txns@.len() == 0,
            r.next_txn == 0,
    {
        TxnCoordinator { pending_txns: Vec::new(), next_txn: 0 }
    }

    /// Answers a declare request: a global transaction id is a recognised
    /// but unsupported feature; otherwise a fresh transaction id is minted
    /// and recorded as pending.
    pub fn on_declare(&mut self, declare: &Declare) -> (r: Result<Vec<u8>, definitions::Error>)
        ensures
            r is Err <==> declare.global_id is Some || old(self).next_txn == 0xffffffffffffffff,
            r is Err ==> *final(self) == *old(self),
            declare.global_id is Some ==> (r matches Err(e) && e.condition
                == ErrorCondition::Amqp(AmqpError::NotImplemented) && (e.description
                matches Some(d) && d@ == "Global transaction ID is not implemented"@)),
            declare.global_id is None && old(self).next_txn == 0xffffffffffffffff ==> (
            r matches Err(e) && e.condition == ErrorCondition::Amqp(
                AmqpError::ResourceLimitExceeded,
            )),
            r matches Ok(id) ==> id@ == crate::encode::be8(old(self).next_txn) && byte_views(
                final(self).pending_txns@,
            ) == byte_views(old(self).pending_txns@).push(id@) && final(self).next_txn == old(
                self,
            ).next_txn + 1,
    {
        if declare.global_id.is_some() {
            return Err(definitions::Error::new(
                ErrorCondition::Amqp(AmqpError::NotImplemented),
                Some(String::from_str("Global transaction ID is not implemented")),
                None,
            ));
        }
        if self.next_txn == 0xffffffffffffffff {
            return Err(definitions::Error::new(
                ErrorCondition::Amqp(AmqpError::ResourceLimitExceeded),
                None,
                None,
            ));
        }
        let id = txn_id_bytes(self.next_txn);
        let id2 = txn_id_bytes(self.next_txn);
        self.next_txn = self.next_txn + 1;
        self.pending_txns.push(id2);
        proof {
            assert(byte_views(self.pending_txns@) =~= byte_views(
                old(self).pending_txns@,
            ).push(id@));
        }
        Ok(id)
    }

    /// Answers a discharge request: the named transaction must be pending;
    /// it is removed, and the caller rolls its work back when the fail
    /// flag says so.
    pub fn on_discharge(&mut self, discharge: &Discharge) -> (r: Result<
        Running,
        definitions::Error,
    >)
        ensures
            r is Ok <==> (exists|i: int| 0 <= i < old(self).pending_txns@.len()
                && #[trigger] old(self).pending_txns@[i]@ == discharge.txn_id@),
            r matches Err(e) ==> e.condition == ErrorCondition::Amqp(AmqpError::NotFound)
                && *final(self) == *old(self),
            r matches Ok(run) ==> run == Running::Continue && final(self).pending_txns@.len()
                + 1 == old(self).pending_txns@.len() && (exists|i: int| 0 <= i < old(
                self,
            ).pending_txns@.len() && byte_views(old(self).pending_txns@)[i]
                == discharge.txn_id@ && byte_views(final(self).pending_txns@) == byte_views(
                old(self).pending_txns@,
            ).remove(i)),
            final(self).next_txn == old(self).next_txn,
    {
        let mut i: usize = 0;
        while i < self.pending_txns.len()
            invariant
                0 <= i <= self.pending_txns@.len(),
                *self == *old(self),
                forall|j: int| 0 <= j < i ==> #[trigger] self.pending_txns@[j]@
                    != discharge.txn_id@,
            decreases self.pending_txns@.len() - i,
        {
            if vec_bytes_eq(&self.pending_txns[i], &discharge.txn_id) {
                let ghost before = self.pending_txns@;
                self.pending_txns.remove(i);
                proof {
                    assert(byte_views(self.pending_txns@) =~= byte_views(before).remove(
                        i as int,
                    ));
                    assert(byte_views(before)[i as int] == discharge.txn_id@);
                }
                return Ok(Running::Continue);
            }
            i = i + 1;
        }
        Err(definitions::Error::new(
            ErrorCondition::Amqp(AmqpError::NotFound),
            None,
            None,
        ))
    }

    /// Dispatches one control-link message body to its decision.
    pub fn on_delivery(&mut self, body: &ControlMessageBody) -> (r: Result<
        Running,
        definitions::Error,
    >)
        ensures
            body matches ControlMessageBody::Declare(d) ==> {
                &&& (r is Err <==> d.global_id is Some || old(self).next_txn
                    == 0xffffffffffffffff)
                &&& (r is Err ==> *final(self) == *old(self))
                &&& (d.global_id is Some ==> (r matches Err(e) && e.condition
                    == ErrorCondition::Amqp(AmqpError::NotImplemented)))
                &&& (r matches Ok(run) ==> run == Running::Continue && byte_views(
                    final(self).pending_txns@,
                ) == byte_views(old(self).pending_txns@).push(
                    crate::encode::be8(old(self).next_txn),
                ) && final(self).next_txn == old(self).next_txn + 1)
            },
            body matches ControlMessageBody::Discharge(d) ==> {
                &&& (r is Ok <==> exists|i: int| 0 <= i < old(self).pending_txns@.len()
                    && #[trigger] old(self).pending_txns@[i]@ == d.txn_id@)
                &&& (r matches Ok(run) ==> run == Running::Continue
                    && final(self).pending_txns@.len() + 1
                        == old(self).pending_txns@.len())
                &&& (r matches Err(e) ==> e.condition == ErrorCondition::Amqp(
                    AmqpError::NotFound,
                ) && *final(self) == *old(self))
            },
    {
        match body {
            ControlMessageBody::Declare(d) => {
                match self.on_declare(d) {
                    Ok(_) => Ok(Running::Continue),
                    Err(e) => Err(e),
                }
            },
            ControlMessageBody::Discharge(d) => self.on_discharge(d),
        }
    }

    /// Decides what an error means for the loop: a local error closes the
    /// control link and stops it.
    pub fn handle_error(&self, _error: &definitions::Error) -> (r: Running)
        ensures
            r == Running::Stop,
    {
        Running::Stop
    }
}

/// Marks a receiver link's flow properties for a transactional acquisition:
/// the key that names the transaction must not already be present, and on
/// success it is appended with the transaction id as its value. The flow
/// that announces the credit is then the caller's to send.
pub fn acquire_flow_properties(fields: &mut definitions::Fields, txn_id: &Vec<u8>)
    -> (r: Result<(), definitions::Error>)
    ensures
        r is Ok <==> !(exists|i: int| 0 <= i < old(fields).0@.len()
            && (#[trigger] old(fields).0@[i]).0@ == spec_txn_id_key()),
        r is Ok ==> final(fields).0@.len() == old(fields).0@.len() + 1
            && final(fields).0@[old(fields).0@.len() as int].0@ == spec_txn_id_key()
            && (final(fields).0@[old(fields).0@.len() as int].1 matches
                crate::value::Value::Binary(b) && b@ == txn_id@)
            && (forall|i: int| 0 <= i < old(fields).0@.len() ==> final(fields).0@[i]
                == old(fields).0@.index(i)),
        r matches Err(e) ==> e.condition == ErrorCondition::Amqp(AmqpError::IllegalState)
            && final(fields).0@ == old(fields).0@,
{
    let key = txn_id_key();
    let mut i: usize = 0;
    while i < fields.0.len()
        invariant
            0 <= i <= fields.0@.len(),
            fields.0@ == old(fields).0@,
            key@ == spec_txn_id_key(),
            forall|j: int| 0 <= j < i ==> (#[trigger] fields.0@[j]).0@ != spec_txn_id_key(),
        decreases fields.0@.len() - i,
    {
        if vec_bytes_eq(&fields.0[i].0, &key) {
            return Err(definitions::Error::new(
                ErrorCondition::Amqp(AmqpError::IllegalState),
                None,
                None,
            ));
        }
        i = i + 1;
    }
    let mut value: Vec<u8> = Vec::new();
    let mut k: usize = 0;
    while k < txn_id.len()
        invariant
            0 <= k <= txn_id@.len(),
            value@ == txn_id@.take(k as int),
            fields.0@ == old(fields).0@,
            key@ == spec_txn_id_key(),
        decreases txn_id@.len() - k,
    {
        value.push(txn_id[k]);
        proof {
            assert(value@ =~= txn_id@.take(k as int + 1));
        }
        k = k + 1;
    }
    fields.0.push((key, crate::value::Value::Binary(value)));
    Ok(())
}

/// The symbolic key under which a transactional acquisition marks the flow.
pub open spec fn spec_txn_id_key() -> Seq<u8> {
    seq![0x74u8, 0x78u8, 0x6eu8, 0x2du8, 0x69u8, 0x64u8]
}

/// The bytes of the key: the name of the transaction id field.
fn txn_id_key() -> (r: Vec<u8>)
    ensures
        r@ == spec_txn_id_key(),
{
    let mut out: Vec<u8> = Vec::new();
    out.push(0x74);
    out.push(0x78);
    out.push(0x6e);
    out.push(0x2d);
    out.push(0x69);
    out.push(0x64);
    proof {
        assert(out@ =~= spec_txn_id_key());
    }
    out
}

/// The byte views of a run of byte vectors, elementwise.
pub open spec fn byte_views(v: Seq<Vec<u8>>) -> Seq<Seq<u8>> {
    v.map_values(|x: Vec<u8>| x@)
}

/// Mints the eight bytes of a transaction id from its number.
fn txn_id_bytes(n: u64) -> (r: Vec<u8>)
    ensures
        r@ == crate::encode::be8(n),
{
    let mut out: Vec<u8> = Vec::new();
    crate::frame::push_be4(&mut out, (n / 0x100000000) as u32);
    crate::frame::push_be4(&mut out, (n % 0x100000000) as u32);
    proof {
        assert(out@ =~= crate::encode::be8(n));
    }
    out
}

/// Compares two byte vectors for equality.
fn vec_bytes_eq(a: &Vec<u8>, b: &Vec<u8>) -> (r: bool)
    ensures
        r <==> a@ == b@,
{
    if a.len() != b.len() {
        return false;
    }
    let mut i: usize = 0;
    while i < a.len()
        invariant
            0 <= i <= a@.len(),
            a@.len() == b@.len(),
            forall|j: int| 0 <= j < i ==> a@[j] == b@[j],
        decreases a@.len() - i,
    {
        if a[i] != b[i] {
            return false;
        }
        i = i + 1;
    }
    proof {
        assert(a@ =~= b@);
    }
    true
}

/// An owned transaction: it has exclusive use of its control link, so the
/// discharge happens at most once.
#[derive(PartialEq, Eq, Debug)]
pub struct OwnedTransaction {
    /// The id the coordinator allocated for this transaction.
    pub txn_id: Vec<u8>,
    /// Whether the transaction has been discharged.
    pub is_discharged: bool,
}

impl OwnedTransaction {
    /// A freshly declared transaction.
    pub fn declare(txn_id: Vec<u8>) -> (r: Self)
        ensures
            r.txn_id@ == txn_id@,
            r.is_discharged == false,
    {
        OwnedTransaction { txn_id, is_discharged: false }
    }

    /// Whether the transaction has been discharged.
    pub fn is_discharged(&self) -> (r: bool)
        ensures
            r == self.is_discharged,
    {
        self.is_discharged
    }

    /// The id the coordinator allocated.
    pub fn txn_id(&self) -> (r: &Vec<u8>)
        ensures
            r@ == self.txn_id@,
    {
        &self.txn_id
    }

    /// Decides the discharge to send: one is owed only the first time,
    /// with the fail flag as given; afterwards the transaction is marked
    /// discharged either way.
    pub fn discharge(&mut self, fail: bool) -> (r: Option<Discharge>)
        ensures
            r is Some <==> !old(self).is_discharged,
            r matches Some(d) ==> d.txn_id@ == old(self).txn_id@ && d.fail == fail,
            final(self).is_discharged == true,
            final(self).txn_id@ == old(self).txn_id@,
    {
        if self.is_discharged {
            return None;
        }
        self.is_discharged = true;
        let mut copy: Vec<u8> = Vec::new();
        let mut i: usize = 0;
        while i < self.txn_id.len()
            invariant
                0 <= i <= self.txn_id@.len(),
                copy@ == self.txn_id@.take(i as int),
                self.is_discharged == true,
                self.txn_id@ == old(self).txn_id@,
            decreases self.txn_id@.len() - i,
        {
            copy.push(self.txn_id[i]);
            proof {
                assert(copy@ =~= self.txn_id@.take(i as int + 1));
            }
            i = i + 1;
        }
        proof {
            assert(self.txn_id@.take(self.txn_id@.len() as int) =~= self.txn_id@);
        }
        Some(Discharge { txn_id: copy, fail })
    }

    /// Rolls the transaction back: the discharge to send carries the fail
    /// flag.
    pub fn rollback(&mut self) -> (r: Option<Discharge>)
        ensures
            r is Some <==> !old(self).is_discharged,
            r matches Some(d) ==> d.txn_id@ == old(self).txn_id@ && d.fail == true,
            final(self).is_discharged == true,
    {
        self.discharge(true)
    }

    /// Commits the transaction: the discharge to send clears the fail
    /// flag.
    pub fn commit(&mut self) -> (r: Option<Discharge>)
        ensures
            r is Some <==> !old(self).is_discharged,
            r matches Some(d) ==> d.txn_id@ == old(self).txn_id@ && d.fail == false,
            final(self).is_discharged == true,
    {
        self.discharge(false)
    }
}

} // verus!
