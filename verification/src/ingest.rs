use vstd::prelude::*;
use std::sync::Mutex;
use crate::measurements::{AppendError, Measurements};
use crate::parser::{line_reads, parse_input};
use crate::shared::{append_shared, some_append};

verus! {

/// What became of one line of input.
#[derive(Clone, Copy, Debug, PartialEq, Eq)]
pub enum Ingested {
    /// The line was read and its values were appended.
    Appended,
    /// The line did not read as values. The store was not touched.
    Unparsed,
    /// The line was read, and the store turned its values down.
    Refused(AppendError),
    /// The lock of the shared store is poisoned.
    Poisoned,
}

/// Feeds one line of input to a store: reads it with
/// [`parse_input`], and appends what was read with
/// [`Measurements::append_value`].
///
/// A line that does not read as values leaves the store as it was.
pub fn ingest_line<T: Copy, F: Fn(&str) -> Option<T>>(
    store: &mut Measurements<T>,
    line: String,
    parse_field: F,
) -> (outcome: Ingested)
    requires
        forall|text: &str| call_requires(parse_field, (text,)),
    ensures
        final(store)@.wf(),
        match outcome {
            Ingested::Unparsed => {
                &&& line_reads(parse_field, line@, None::<Seq<T>>)
                &&& final(store)@ == old(store)@
            },
            Ingested::Appended => exists|vs: Seq<T>, elapsed: nat|
                {
                    &&& line_reads(parse_field, line@, Some(vs))
                    &&& #[trigger] old(store)@.append_step(
                        elapsed,
                        vs,
                        final(store)@,
                        Ok::<(), AppendError>(()),
                    )
                },
            Ingested::Refused(reason) => exists|vs: Seq<T>, elapsed: nat|
                {
                    &&& line_reads(parse_field, line@, Some(vs))
                    &&& #[trigger] old(store)@.append_step(
                        elapsed,
                        vs,
                        final(store)@,
                        Err::<(), AppendError>(reason),
                    )
                },
            Ingested::Poisoned => false,
        },
{
    proof {
        use_type_invariant(&*store);
    }
    let ghost before = store@;
    match parse_input(line, parse_field) {
        None => Ingested::Unparsed,
        Some(values) => {
            let ghost vs = values@;
            let appended = store.append_value(values);
            proof {
                let elapsed = choose|elapsed: nat|
                    before.append_step(elapsed, vs, store@, appended);
                assert(before.append_step(elapsed, vs, store@, appended));
            }
            match appended {
                Ok(()) => Ingested::Appended,
                Err(reason) => Ingested::Refused(reason),
            }
        },
    }
}

/// Feeds one line of input to a shared store. The line is read before the
/// lock is taken, so a line that does not read as values never takes it.
pub fn ingest_shared<T: Copy, F: Fn(&str) -> Option<T>>(
    shared: &Mutex<Measurements<T>>,
    line: String,
    parse_field: F,
) -> (outcome: Ingested)
    requires
        forall|text: &str| call_requires(parse_field, (text,)),
    ensures
        match outcome {
            Ingested::Unparsed => line_reads(parse_field, line@, None::<Seq<T>>),
            Ingested::Appended => exists|vs: Seq<T>|
                {
                    &&& #[trigger] line_reads(parse_field, line@, Some(vs))
                    &&& some_append(vs, Ok::<(), AppendError>(()))
                },
            Ingested::Refused(reason) => exists|vs: Seq<T>|
                {
                    &&& #[trigger] line_reads(parse_field, line@, Some(vs))
                    &&& some_append(vs, Err::<(), AppendError>(reason))
                },
            Ingested::Poisoned => exists|vs: Seq<T>| #[trigger]
                line_reads(parse_field, line@, Some(vs)),
        },
{
    match parse_input(line, parse_field) {
        None => Ingested::Unparsed,
        Some(values) => {
            let ghost vs = values@;
            assert(line_reads(parse_field, line@, Some(vs)));
            match append_shared(shared, values) {
                None => Ingested::Poisoned,
                Some(Ok(())) => Ingested::Appended,
                Some(Err(reason)) => Ingested::Refused(reason),
            }
        },
    }
}

} // verus!
