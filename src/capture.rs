//! An in-memory sink that formatted output is written into, from any number of handles.
use std::ops::{Deref, DerefMut};
use std::sync::{Arc, Mutex, MutexGuard, PoisonError, TryLockError};
use vstd::prelude::*;
use vstd::utf8::{
    decode_utf8, encode_utf8, length_of_first_scalar, pop_first_scalar, valid_first_scalar, valid_utf8,
};

use crate::output::LogOutput;

verus! {

/// `std::sync::Mutex`, opaque: the buffer it guards is only reached through a guard.
#[verifier::external_type_specification]
#[verifier::external_body]
#[verifier::reject_recursive_types(T)]
pub struct ExMutex<T: ?Sized>(Mutex<T>);

/// `std::sync::MutexGuard`, opaque: proof that the lock is held, until it is dropped.
#[verifier::external_type_specification]
#[verifier::external_body]
#[verifier::reject_recursive_types(T)]
pub struct ExMutexGuard<'a, T: ?Sized + 'a>(MutexGuard<'a, T>);

/// `std::sync::PoisonError`, opaque: only told apart from `WouldBlock`.
#[verifier::external_type_specification]
#[verifier::external_body]
#[verifier::reject_recursive_types(T)]
pub struct ExPoisonError<T>(PoisonError<T>);

/// `std::sync::TryLockError`, with its two variants visible: `Poisoned` and `WouldBlock`.
#[verifier::external_type_specification]
#[verifier::reject_recursive_types(T)]
pub struct ExTryLockError<T>(TryLockError<T>);

/// Relies on `Mutex::new`, which only wraps its argument; nothing is said of the contents.
pub assume_specification<T>[ Mutex::<T>::new ](t: T) -> Mutex<T>;

/// Relies on `Mutex::try_lock`: it never blocks. Whether it succeeds depends on the other
/// holders at that moment, so nothing is said of the outcome.
pub assume_specification<'a, T: ?Sized>[ Mutex::<T>::try_lock ](m: &'a Mutex<T>) -> Result<
    MutexGuard<'a, T>,
    TryLockError<MutexGuard<'a, T>>,
>;

/// Relies on `MutexGuard`'s `DerefMut`: the guarded value, for as long as the lock is held.
pub assume_specification<'a, 'b, T: ?Sized>[ <MutexGuard<'a, T> as DerefMut>::deref_mut ](
    g: &'b mut MutexGuard<'a, T>,
) -> &'b mut T;

/// Relies on `MutexGuard`'s `Deref`: the guarded value, for as long as the lock is held.
pub assume_specification<'a, 'b, T: ?Sized>[ <MutexGuard<'a, T> as Deref>::deref ](
    g: &'b MutexGuard<'a, T>,
) -> &'b T;

/// Relies on `String::from_utf8`: it succeeds exactly on valid UTF-8, and the string then
/// holds the characters that the bytes encode.
#[verifier::external_body]
fn text_of_bytes(bytes: Vec<u8>) -> (r: Option<String>)
    ensures
        r is Some <==> valid_utf8(bytes@),
        r is Some ==> r->Some_0@ == decode_utf8(bytes@),
{
    String::from_utf8(bytes).ok()
}

/// Why an operation on the sink failed.
#[derive(Debug, Clone, Copy, PartialEq, Eq, Structural)]
pub enum CaptureError {
    /// Another handle holds the lock at this moment.
    WouldBlock,
    /// A holder of the lock panicked while it held it.
    Poisoned,
    /// The captured bytes are not valid UTF-8.
    InvalidData,
}

/// Appends one record at the end of the buffer, whole; returns how many bytes it took.
pub fn append_record(buf: &mut Vec<u8>, bytes: &[u8]) -> (n: usize)
    ensures
        final(buf)@ == old(buf)@ + bytes@,
        n == bytes@.len(),
{
    buf.extend_from_slice(bytes);
    bytes.len()
}

/// A frozen copy of the buffer as text; the buffer itself is only read.
pub fn snapshot_of(buf: &Vec<u8>) -> (r: Result<LogOutput, CaptureError>)
    ensures
        r is Ok <==> valid_utf8(buf@),
        r is Ok ==> r->Ok_0@ == decode_utf8(buf@),
        r is Err ==> r->Err_0 == CaptureError::InvalidData,
{
    match text_of_bytes(buf.clone()) {
        Some(text) => Ok(LogOutput::new(text)),
        None => Err(CaptureError::InvalidData),
    }
}

/// The records laid end to end.
pub open spec fn concat(records: Seq<Seq<u8>>) -> Seq<u8>
    decreases records.len(),
{
    if records.len() == 0 {
        Seq::empty()
    } else {
        records[0] + concat(records.drop_first())
    }
}

/// The bytes that successive `append_record` calls with `records` leave in a buffer that
/// held `start`.
pub open spec fn after_appends(start: Seq<u8>, records: Seq<Seq<u8>>) -> Seq<u8>
    decreases records.len(),
{
    if records.len() == 0 {
        start
    } else {
        after_appends(start + records[0], records.drop_first())
    }
}

/// Where record `k` starts when the records are laid end to end.
pub open spec fn record_offset(records: Seq<Seq<u8>>, k: int) -> int {
    concat(records.take(k)).len() as int
}

/// The records of a schedule of writes, in the order the lock admitted them.
pub open spec fn records_of(schedule: Seq<(nat, Seq<u8>)>) -> Seq<Seq<u8>> {
    schedule.map_values(|w: (nat, Seq<u8>)| w.1)
}

/// `schedule` (each write with the number of the caller that made it) holds the writes of
/// every caller, each caller's in its own order, and no others.
pub open spec fn is_interleaving(
    per_caller: Seq<Seq<Seq<u8>>>,
    schedule: Seq<(nat, Seq<u8>)>,
) -> bool {
    &&& forall|k: int| 0 <= k < schedule.len() ==> #[trigger] schedule[k].0 < per_caller.len()
    &&& forall|c: nat|
        c < per_caller.len() ==> records_of(
            schedule.filter(|w: (nat, Seq<u8>)| w.0 == c),
        ) == #[trigger] per_caller[c as int]
}

proof fn lemma_after_appends(start: Seq<u8>, records: Seq<Seq<u8>>)
    ensures
        after_appends(start, records) == start + concat(records),
    decreases records.len(),
{
    if records.len() > 0 {
        lemma_after_appends(start + records[0], records.drop_first());
        assert(start + records[0] + concat(records.drop_first()) =~= start + concat(records));
    } else {
        assert(start + concat(records) =~= start);
    }
}

proof fn lemma_concat_split(a: Seq<Seq<u8>>, b: Seq<Seq<u8>>)
    ensures
        concat(a + b) == concat(a) + concat(b),
    decreases a.len(),
{
    if a.len() == 0 {
        assert(a + b =~= b);
        assert(concat(a) + concat(b) =~= concat(b));
    } else {
        lemma_concat_split(a.drop_first(), b);
        assert((a + b).drop_first() =~= a.drop_first() + b);
        assert(a[0] + (concat(a.drop_first()) + concat(b)) =~= (a[0] + concat(a.drop_first()))
            + concat(b));
    }
}

/// Writes from any number of callers, appended whole under the lock in the order the lock
/// admitted them (a schedule that interleaves the callers' writes, each caller's in its own
/// order), leave exactly the schedule's writes laid end to end: every write stands unbroken
/// at its own offset.
pub proof fn lemma_writes_interleave(per_caller: Seq<Seq<Seq<u8>>>, schedule: Seq<(nat, Seq<u8>)>)
    requires
        is_interleaving(per_caller, schedule),
    ensures
        after_appends(Seq::empty(), records_of(schedule)) == concat(records_of(schedule)),
        forall|k: int|
            0 <= k < schedule.len() ==> after_appends(Seq::empty(), records_of(schedule)).subrange(
                record_offset(records_of(schedule), k),
                record_offset(records_of(schedule), k) + schedule[k].1.len(),
            ) == #[trigger] schedule[k].1,
{
    let records = records_of(schedule);
    lemma_after_appends(Seq::empty(), records);
    assert(Seq::<u8>::empty() + concat(records) =~= concat(records));
    assert forall|k: int| 0 <= k < schedule.len() implies after_appends(
        Seq::empty(),
        records,
    ).subrange(record_offset(records, k), record_offset(records, k) + schedule[k].1.len())
        == #[trigger] schedule[k].1 by {
        let before = records.take(k);
        let rest = records.skip(k + 1);
        assert(records =~= before + (seq![records[k]] + rest));
        lemma_concat_split(before, seq![records[k]] + rest);
        lemma_concat_split(seq![records[k]], rest);
        let single = seq![records[k]];
        assert(single.drop_first() =~= Seq::<Seq<u8>>::empty());
        assert(concat(single.drop_first()) == Seq::<u8>::empty());
        assert(concat(single) == single[0] + concat(single.drop_first()));
        assert(concat(single) =~= records[k]);
        let text = concat(records);
        assert(text =~= concat(before) + (records[k] + concat(rest)));
        assert(text.subrange(
            concat(before).len() as int,
            (concat(before).len() + records[k].len()) as int,
        ) =~= records[k]);
    }
}

/// Bytes that follow valid UTF-8 and keep the whole valid are valid UTF-8 themselves.
proof fn lemma_valid_suffix(a: Seq<u8>, b: Seq<u8>)
    requires
        valid_utf8(a),
        valid_utf8(a + b),
    ensures
        valid_utf8(b),
    decreases a.len(),
{
    if a.len() == 0 {
        assert(a + b =~= b);
    } else {
        let ab = a + b;
        assert(valid_first_scalar(a));
        assert(forall|j: int| 0 <= j < a.len() ==> ab[j] == a[j]);
        assert(length_of_first_scalar(ab) == length_of_first_scalar(a));
        assert(valid_first_scalar(ab));
        assert(pop_first_scalar(ab) =~= pop_first_scalar(a) + b);
        assert(pop_first_scalar(a).len() < a.len());
        lemma_valid_suffix(pop_first_scalar(a), b);
    }
}

/// Appending a record and taking a snapshot again, when both snapshots succeed, gives the
/// earlier snapshot's text with the record's text after it; the bytes before the record are
/// left as they were.
pub proof fn lemma_snapshot_after_append(before: Seq<u8>, record: Seq<u8>)
    requires
        valid_utf8(before),
        valid_utf8(before + record),
    ensures
        valid_utf8(record),
        decode_utf8(before + record) == decode_utf8(before) + decode_utf8(record),
        (before + record).subrange(0, before.len() as int) == before,
{
    lemma_valid_suffix(before, record);
    broadcast use vstd::utf8::valid_utf8_concat, vstd::utf8::decode_utf8_encode_utf8,
        vstd::utf8::encode_utf8_decode_utf8;

    let a = decode_utf8(before);
    let b = decode_utf8(record);
    lemma_encode_concat(a, b);
    assert(encode_utf8(a + b) == before + record);
    assert((before + record).subrange(0, before.len() as int) =~= before);
}

proof fn lemma_encode_concat(a: Seq<char>, b: Seq<char>)
    ensures
        encode_utf8(a + b) == encode_utf8(a) + encode_utf8(b),
    decreases a.len(),
{
    if a.len() == 0 {
        assert(a + b =~= b);
        assert(encode_utf8(a) + encode_utf8(b) =~= encode_utf8(b));
    } else {
        lemma_encode_concat(a.drop_first(), b);
        assert((a + b).drop_first() =~= a.drop_first() + b);
        assert((a + b)[0] == a[0]);
        let head = vstd::utf8::encode_scalar(a[0] as u32);
        assert(head + (encode_utf8(a.drop_first()) + encode_utf8(b)) =~= (head + encode_utf8(
            a.drop_first(),
        )) + encode_utf8(b));
    }
}

/// A handle on a shared, lock-protected byte buffer. Copies made with `share` write into
/// the same buffer.
pub struct MockWriter {
    buf: Arc<Mutex<Vec<u8>>>,
}

impl MockWriter {
    /// A handle on a new, empty buffer.
    pub fn new() -> (r: Self) {
        MockWriter { buf: Arc::new(Mutex::new(Vec::new())) }
    }

    /// Another handle on the same buffer.
    pub fn share(&self) -> (r: Self) {
        MockWriter { buf: share_buffer(&self.buf) }
    }

    /// The failure that a refused `try_lock` stands for.
    pub fn map_error<Guard>(err: TryLockError<Guard>) -> (r: CaptureError)
        ensures
            err is WouldBlock ==> r == CaptureError::WouldBlock,
            err is Poisoned ==> r == CaptureError::Poisoned,
    {
        match err {
            TryLockError::WouldBlock => CaptureError::WouldBlock,
            TryLockError::Poisoned(_) => CaptureError::Poisoned,
        }
    }

    /// The buffer, locked, if no other handle holds it; the lock is never waited for.
    pub fn buf(&self) -> (r: Result<MutexGuard<'_, Vec<u8>>, CaptureError>)
        ensures
            r is Err ==> r->Err_0 == CaptureError::WouldBlock || r->Err_0
                == CaptureError::Poisoned,
    {
        match self.buf.try_lock() {
            Ok(guard) => Ok(guard),
            Err(e) => Err(Self::map_error(e)),
        }
    }

    /// Appends `bytes` whole, under the lock; fails at once if the lock is held.
    pub fn write(&self, bytes: &[u8]) -> (r: Result<usize, CaptureError>)
        ensures
            r is Ok ==> r->Ok_0 == bytes@.len(),
            r is Err ==> r->Err_0 == CaptureError::WouldBlock || r->Err_0
                == CaptureError::Poisoned,
    {
        let mut guard = self.buf()?;
        Ok(append_record(guard.deref_mut(), bytes))
    }

    /// Nothing is buffered on the way in, so there is nothing to flush.
    pub fn flush(&self) -> (r: Result<(), CaptureError>)
        ensures
            r is Ok,
    {
        Ok(())
    }

    /// A frozen copy of everything written so far, as text.
    pub fn log_output(&self) -> (r: Result<LogOutput, CaptureError>)
        ensures
            r is Err ==> r->Err_0 == CaptureError::WouldBlock || r->Err_0
                == CaptureError::Poisoned || r->Err_0 == CaptureError::InvalidData,
    {
        let guard = self.buf()?;
        snapshot_of(guard.deref())
    }
}

/// Relies on `Arc::clone`: the new pointer refers to the same buffer.
#[verifier::external_body]
fn share_buffer(buf: &Arc<Mutex<Vec<u8>>>) -> (r: Arc<Mutex<Vec<u8>>>) {
    Arc::clone(buf)
}

} // verus!
