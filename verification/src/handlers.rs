//! Sources of the payload and round that an aggregation starts from.
use vstd::prelude::*;

verus! {

/// Shared trait for creators that can generate payloads and round numbers.
pub trait TaskCreator {
    /// The current payload and round number, or a message saying why there
    /// is none.
    fn get_payload_and_round(&self) -> Result<(Vec<u8>, u64), String>;
}

/// Which kind of creator a task came from.
#[derive(Debug, Clone, Copy, PartialEq, Eq, Structural)]
pub enum CreatorKind {
    /// A creator that makes tasks itself.
    Creator,
    /// A creator that makes tasks from what it listens to.
    ListeningCreator,
}

/// The prefix that marks an error of a creator of the given kind.
pub open spec fn error_prefix(kind: CreatorKind) -> Seq<char> {
    match kind {
        CreatorKind::Creator => "Creator error: "@,
        CreatorKind::ListeningCreator => "ListeningCreator error: "@,
    }
}

/// Whether `r` is the answer `inner` of a creator of kind `kind` with its
/// error, if any, marked by the kind's prefix; a payload and round pass
/// unchanged.
pub open spec fn marked_answer(
    kind: CreatorKind,
    inner: Result<(Vec<u8>, u64), String>,
    r: Result<(Vec<u8>, u64), String>,
) -> bool {
    match inner {
        Ok(v) => r == Ok::<(Vec<u8>, u64), String>(v),
        Err(e) => r matches Err(m) && m@ == error_prefix(kind) + e@,
    }
}

/// The answer of a creator of kind `kind`, with its error, if any, marked by
/// the kind's prefix; a payload and round pass unchanged.
pub fn label_creator_result(kind: CreatorKind, result: Result<(Vec<u8>, u64), String>) -> (r: Result<
    (Vec<u8>, u64),
    String,
>)
    ensures
        marked_answer(kind, result, r),
{
    match result {
        Ok(v) => Ok(v),
        Err(e) => {
            let prefix = match kind {
                CreatorKind::Creator => String::from_str("Creator error: "),
                CreatorKind::ListeningCreator => String::from_str("ListeningCreator error: "),
            };
            let mut message = prefix;
            message.append(e.as_str());
            Err(message)
        },
    }
}

/// A creator of one of the two kinds.
pub enum TaskCreatorEnum<C, L> {
    Creator(C),
    ListeningCreator(L),
}

impl<C: TaskCreator, L: TaskCreator> TaskCreator for TaskCreatorEnum<C, L> {
    /// Asks the creator held, marking its error with the creator's kind: the
    /// answer is what the creator held answered, passed on unchanged, or its
    /// error message prefixed by the creator's kind.
    fn get_payload_and_round(&self) -> (r: Result<(Vec<u8>, u64), String>)
        ensures
            match self {
                TaskCreatorEnum::Creator(c) => exists|inner: Result<(Vec<u8>, u64), String>|
                    call_ensures(C::get_payload_and_round, (c,), inner) && #[trigger] marked_answer(
                        CreatorKind::Creator,
                        inner,
                        r,
                    ),
                TaskCreatorEnum::ListeningCreator(l) => exists|inner: Result<(Vec<u8>, u64), String>|
                    call_ensures(L::get_payload_and_round, (l,), inner) && #[trigger] marked_answer(
                        CreatorKind::ListeningCreator,
                        inner,
                        r,
                    ),
            },
    {
        match self {
            TaskCreatorEnum::Creator(creator) => label_creator_result(
                CreatorKind::Creator,
                creator.get_payload_and_round(),
            ),
            TaskCreatorEnum::ListeningCreator(listening_creator) => label_creator_result(
                CreatorKind::ListeningCreator,
                listening_creator.get_payload_and_round(),
            ),
        }
    }
}

} // verus!
