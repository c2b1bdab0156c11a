//! What holds of the store whatever is appended to it: the laws that relate
//! initialising, appending and listing.

use crate::db::{
    frames_records, initial_file, initialized, lemma_frames_records_prefix, lemma_joined_frames,
    listed, read_faithfully, record_frame, stored_records,
};
use crate::document::{declares_other_schema, document_records, encoded_records};
use crate::error::DecodeError;
use crate::frame::{frame_bytes, lemma_parse_frames_append, parse_frames};
use crate::models::RecordModel;
use vstd::prelude::*;

verus! {

/// The store file after the given records were appended to `file` one after
/// the other; `None` where one of them could not be encoded.
pub open spec fn appended(file: Seq<u8>, records: Seq<RecordModel>) -> Option<Seq<u8>>
    decreases records.len(),
{
    if records.len() == 0 {
        Some(file)
    } else {
        match (appended(file, records.drop_last()), record_frame(records.last())) {
            (Some(before), Ok(bytes)) => Some(before + bytes),
            _ => None,
        }
    }
}

/// Listing a store file whose documents were read faithfully gives what the
/// file holds, or fails as its content asks.
pub proof fn lemma_listing_of_faithful_readings(
    file: Seq<u8>,
    outcomes: Seq<Result<Seq<RecordModel>, DecodeError>>,
)
    requires
        read_faithfully(file, outcomes),
    ensures
        listed(file, outcomes) == stored_records(file),
{
    if let Some(frames) = parse_frames(file) {
        lemma_joined_frames(frames, outcomes);
    }
}

/// Initialising twice leaves the file that initialising once leaves, and so
/// the same rows.
pub proof fn lemma_initialize_idempotent(file: Option<Seq<u8>>)
    ensures
        initialized(initialized(file)) == initialized(file),
        initialized(file) matches Some(content) ==> initialized(initialized(file)) matches Some(
            again,
        ) && stored_records(again) == stored_records(content),
{
}

/// Initialising leaves an existing file as it is.
pub proof fn lemma_initialize_keeps_content(content: Seq<u8>)
    ensures
        initialized(Some(content)) == Some(content),
{
}

/// A freshly initialised store lists no record, and lists without error.
pub proof fn lemma_fresh_store_is_empty()
    requires
        initial_file() is Ok,
    ensures
        stored_records(initial_file()->Ok_0) == Ok::<Seq<RecordModel>, DecodeError>(Seq::empty()),
{
    let document = encoded_records(Seq::empty())->Ok_0;
    let frames = Seq::<Seq<u8>>::empty().push(document);
    lemma_parse_frames_append(Seq::empty(), document);
    assert(Seq::<u8>::empty() + frame_bytes(document) =~= frame_bytes(document));
    assert(parse_frames(Seq::<u8>::empty()) == Some(Seq::<Seq<u8>>::empty()));
    assert(frames.drop_last() =~= Seq::<Seq<u8>>::empty());
    assert(frames_records(frames.drop_last()) == Ok::<Seq<RecordModel>, DecodeError>(
        Seq::empty(),
    ));
    assert(Seq::<RecordModel>::empty() + Seq::<RecordModel>::empty() =~= Seq::<
        RecordModel,
    >::empty());
}

/// After a successful append, the store lists what it listed before,
/// followed by the appended record.
pub proof fn lemma_append_extends(file: Seq<u8>, record: RecordModel)
    requires
        stored_records(file) is Ok,
        record_frame(record) is Ok,
    ensures
        stored_records(file + record_frame(record)->Ok_0) == Ok::<Seq<RecordModel>, DecodeError>(
            stored_records(file)->Ok_0.push(record),
        ),
{
    let document = encoded_records(seq![record])->Ok_0;
    let frames = parse_frames(file)->Some_0;
    let before = stored_records(file)->Ok_0;
    lemma_parse_frames_append(file, document);
    assert(frames.push(document).drop_last() =~= frames);
    assert(before + seq![record] =~= before.push(record));
}

/// A record appended to an empty store is all that the store then lists.
pub proof fn lemma_append_to_fresh_store(record: RecordModel)
    requires
        initial_file() is Ok,
        record_frame(record) is Ok,
    ensures
        stored_records(initial_file()->Ok_0 + record_frame(record)->Ok_0) == Ok::<
            Seq<RecordModel>,
            DecodeError,
        >(seq![record]),
{
    lemma_fresh_store_is_empty();
    lemma_append_extends(initial_file()->Ok_0, record);
    assert(Seq::<RecordModel>::empty().push(record) =~= seq![record]);
}

/// Records appended one after the other are listed behind what the store
/// held, in the order in which they were appended.
pub proof fn lemma_appends_in_order(file: Seq<u8>, records: Seq<RecordModel>)
    requires
        stored_records(file) is Ok,
        appended(file, records) is Some,
    ensures
        stored_records(appended(file, records)->Some_0) == Ok::<Seq<RecordModel>, DecodeError>(
            stored_records(file)->Ok_0 + records,
        ),
    decreases records.len(),
{
    let before = stored_records(file)->Ok_0;
    if records.len() == 0 {
        assert(before + records =~= before);
    } else {
        lemma_appends_in_order(file, records.drop_last());
        lemma_append_extends(appended(file, records.drop_last())->Some_0, records.last());
        assert((before + records.drop_last()).push(records.last()) =~= before + records);
    }
}

/// Three records appended to an empty store are listed in the order in which
/// they were appended.
pub proof fn lemma_three_appends_in_order(
    first: RecordModel,
    second: RecordModel,
    third: RecordModel,
)
    requires
        initial_file() is Ok,
        record_frame(first) is Ok,
        record_frame(second) is Ok,
        record_frame(third) is Ok,
    ensures
        stored_records(
            initial_file()->Ok_0 + record_frame(first)->Ok_0 + record_frame(second)->Ok_0
                + record_frame(third)->Ok_0,
        ) == Ok::<Seq<RecordModel>, DecodeError>(seq![first, second, third]),
{
    let one = initial_file()->Ok_0 + record_frame(first)->Ok_0;
    let two = one + record_frame(second)->Ok_0;
    lemma_append_to_fresh_store(first);
    lemma_append_extends(one, second);
    lemma_append_extends(two, third);
    assert(seq![first].push(second).push(third) =~= seq![first, second, third]);
}

/// Two records with the same id are both kept, each with its own name and
/// value: the store does not tell records apart by their id.
pub proof fn lemma_duplicate_ids_kept(first: RecordModel, second: RecordModel)
    requires
        first.id == second.id,
        initial_file() is Ok,
        record_frame(first) is Ok,
        record_frame(second) is Ok,
    ensures
        stored_records(
            initial_file()->Ok_0 + record_frame(first)->Ok_0 + record_frame(second)->Ok_0,
        ) == Ok::<Seq<RecordModel>, DecodeError>(seq![first, second]),
{
    let one = initial_file()->Ok_0 + record_frame(first)->Ok_0;
    lemma_append_to_fresh_store(first);
    lemma_append_extends(one, second);
    assert(seq![first].push(second) =~= seq![first, second]);
}

/// A successful append leaves every row that the store held as it was and
/// where it was, whatever its id: a row with the id of the appended record
/// is neither replaced nor merged, and the new row comes last.
pub proof fn lemma_append_keeps_earlier_rows(file: Seq<u8>, record: RecordModel, index: int)
    requires
        stored_records(file) is Ok,
        record_frame(record) is Ok,
        0 <= index < stored_records(file)->Ok_0.len(),
    ensures
        stored_records(file + record_frame(record)->Ok_0) is Ok,
        stored_records(file + record_frame(record)->Ok_0)->Ok_0.len() == stored_records(
            file,
        )->Ok_0.len() + 1,
        stored_records(file + record_frame(record)->Ok_0)->Ok_0[index] == stored_records(
            file,
        )->Ok_0[index],
        stored_records(file + record_frame(record)->Ok_0)->Ok_0.last() == record,
{
    lemma_append_extends(file, record);
}

/// Whether an append succeeds, and what it writes, depends on the appended
/// record alone: nothing that the store holds, a row with the same id
/// included, is a ground to refuse it.
pub proof fn lemma_append_ignores_content(
    file: Seq<u8>,
    other: Seq<u8>,
    record: RecordModel,
)
    requires
        stored_records(file) is Ok,
        stored_records(other) is Ok,
        record_frame(record) is Ok,
    ensures
        stored_records(file + record_frame(record)->Ok_0) is Ok,
        stored_records(other + record_frame(record)->Ok_0) is Ok,
{
    lemma_append_extends(file, record);
    lemma_append_extends(other, record);
}

/// Appends that take their turn one after the other, in whatever order,
/// leave a store that lists what it held before, followed by each launched
/// record exactly as often as it was launched, in the order of the turns.
pub proof fn lemma_serialized_appends(
    file: Seq<u8>,
    launched: Seq<RecordModel>,
    turns: Seq<RecordModel>,
)
    requires
        turns.to_multiset() == launched.to_multiset(),
        stored_records(file) is Ok,
        appended(file, turns) is Some,
    ensures
        stored_records(appended(file, turns)->Some_0) == Ok::<Seq<RecordModel>, DecodeError>(
            stored_records(file)->Ok_0 + turns,
        ),
        stored_records(appended(file, turns)->Some_0)->Ok_0.skip(
            stored_records(file)->Ok_0.len() as int,
        ).to_multiset() == launched.to_multiset(),
        stored_records(appended(file, turns)->Some_0)->Ok_0.len() == stored_records(
            file,
        )->Ok_0.len() + launched.len(),
{
    let before = stored_records(file)->Ok_0;
    lemma_appends_in_order(file, turns);
    assert((before + turns).skip(before.len() as int) =~= turns);
    turns.to_multiset_ensures();
    launched.to_multiset_ensures();
}

/// A store file in which some document declares a schema other than that of
/// a record is never listed: listing fails. Where the documents before it
/// are in order, and so always where it is the file's first, listing fails
/// with [`DecodeError::Schema`].
pub proof fn lemma_schema_mismatch_fails(file: Seq<u8>, index: int)
    requires
        parse_frames(file) is Some,
        0 <= index < parse_frames(file)->Some_0.len(),
        parse_frames(file)->Some_0[index].len() <= crate::codec::MAX_TEXT_BYTES,
        declares_other_schema(parse_frames(file)->Some_0[index]),
    ensures
        stored_records(file) is Err,
        frames_records(parse_frames(file)->Some_0.take(index)) is Ok ==> stored_records(file)
            == Err::<Seq<RecordModel>, DecodeError>(DecodeError::Schema),
{
    let frames = parse_frames(file)->Some_0;
    assert(frames.take(index + 1).drop_last() =~= frames.take(index));
    assert(frames.take(index + 1).last() == frames[index]);
    assert(document_records(frames[index]) == Err::<Seq<RecordModel>, DecodeError>(
        DecodeError::Schema,
    ));
    lemma_frames_records_prefix(frames, index + 1);
}

} // verus!
