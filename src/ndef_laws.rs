use vstd::prelude::*;

use crate::decode_error::{Needed, NfcError};
use crate::ndef::{
    be_u32_value, header_outcome, is_short_record, message_outcome, message_records,
    message_rest, record_len, record_outcome, spec_header, spec_record, RecordView,
};

verus! {

/// `s` holds exactly one complete record and nothing else.
pub open spec fn is_exact_record(s: Seq<u8>) -> bool {
    record_outcome(s) is Ok && record_len(s) == s.len()
}

pub open spec fn is_incomplete<T>(o: Result<T, NfcError>) -> bool {
    match o {
        Err(NfcError::Incomplete(Needed::Size(_))) => true,
        _ => false,
    }
}

/// In a header without the short-record flag, the payload length is the
/// big-endian value of the four bytes after the type length, whatever the
/// type length and id length are.
pub proof fn lemma_long_payload_length(s: Seq<u8>)
    requires
        header_outcome(s) is Ok,
        !is_short_record(s[0]),
    ensures
        header_outcome(s)->Ok_0.1.payload_length as nat == be_u32_value(s[2], s[3], s[4], s[5]),
{
}

/// A decoded record's runs have exactly the lengths its header declares, and
/// it has id bytes exactly when its header says an id length is present.
pub proof fn lemma_record_run_lengths(s: Seq<u8>)
    requires
        record_outcome(s) is Ok,
    ensures
        ({
            let r = record_outcome(s)->Ok_0.1;
            &&& r.type_.len() == r.header.type_length
            &&& (r.id is Some <==> r.header.has_id_length)
            &&& (r.header.has_id_length <==> r.header.id_length is Some)
            &&& (r.id is Some ==> r.id->0.len() == r.header.id_length->0)
            &&& r.payload.len() == r.header.payload_length
            &&& (r.header.short_record ==> r.header.payload_length <= 255)
        }),
{
}

/// A record followed by any bytes decodes as the record alone does.
pub proof fn lemma_record_ignores_tail(p: Seq<u8>, tail: Seq<u8>)
    requires
        record_outcome(p) is Ok,
    ensures
        record_outcome(p + tail) == record_outcome(p),
        record_len(p + tail) == record_len(p),
{
    let s = p + tail;
    assert(spec_header(s) == spec_header(p));
    assert(spec_record(s).type_ =~= spec_record(p).type_);
    assert(spec_record(s).payload =~= spec_record(p).payload);
    if spec_record(p).id is Some {
        assert(spec_record(s).id->0 =~= spec_record(p).id->0);
    }
    assert(spec_record(s) == spec_record(p));
}

/// Every prefix of a record that stops short of its declared length decodes,
/// as a record and as a message, to a report that more bytes are needed.
pub proof fn lemma_truncated_record_incomplete(s: Seq<u8>, k: nat)
    requires
        record_outcome(s) is Ok,
        k < record_len(s),
    ensures
        is_incomplete(record_outcome(s.take(k as int))),
        is_incomplete(message_outcome(s.take(k as int))),
{
    let t = s.take(k as int);
    if k >= 2 {
        assert(t[0] == s[0]);
    }
    if header_outcome(t) is Ok {
        assert(spec_header(t) == spec_header(s));
    }
}

/// Back-to-back complete records followed by `tail` decode to those records,
/// in order, followed by whatever `tail` decodes to.
pub proof fn lemma_records_then_tail(parts: Seq<Seq<u8>>, tail: Seq<u8>)
    requires
        forall|i: int| 0 <= i < parts.len() ==> is_exact_record(#[trigger] parts[i]),
    ensures
        message_records(parts.flatten() + tail) == parts.map_values(|p: Seq<u8>| spec_record(p))
            + message_records(tail),
        message_rest(parts.flatten() + tail) == message_rest(tail),
    decreases parts.len(),
{
    if parts.len() == 0 {
        assert(parts.flatten() + tail =~= tail);
        assert(parts.map_values(|p: Seq<u8>| spec_record(p)) + message_records(tail)
            =~= message_records(tail));
    } else {
        let first = parts[0];
        let others = parts.drop_first();
        assert forall|i: int| 0 <= i < others.len() implies is_exact_record(#[trigger] others[i]) by {
            assert(others[i] == parts[i + 1]);
        }
        lemma_records_then_tail(others, tail);
        let after = others.flatten() + tail;
        let s = parts.flatten() + tail;
        assert(s =~= first + after);
        assert(is_exact_record(parts[0]));
        lemma_record_ignores_tail(first, after);
        assert(s.skip(first.len() as int) =~= after);
        assert(parts.map_values(|p: Seq<u8>| spec_record(p)) =~= seq![spec_record(first)]
            + others.map_values(|p: Seq<u8>| spec_record(p)));
        assert(message_records(s) =~= parts.map_values(|p: Seq<u8>| spec_record(p))
            + message_records(tail));
    }
}

/// A buffer of one or more back-to-back complete records and nothing else
/// decodes to exactly those records, in wire order, leaving nothing behind.
pub proof fn lemma_whole_records_message(parts: Seq<Seq<u8>>)
    requires
        parts.len() >= 1,
        forall|i: int| 0 <= i < parts.len() ==> is_exact_record(#[trigger] parts[i]),
    ensures
        message_outcome(parts.flatten()) == Ok::<(nat, Seq<RecordView>), NfcError>(
            (parts.flatten().len(), parts.map_values(|p: Seq<u8>| spec_record(p))),
        ),
{
    let empty = Seq::<u8>::empty();
    lemma_records_then_tail(parts, empty);
    assert(parts.flatten() + empty =~= parts.flatten());
    assert(record_outcome(empty) is Err);
    assert(message_records(empty) =~= Seq::<RecordView>::empty());
    assert(parts.map_values(|p: Seq<u8>| spec_record(p)) + Seq::<RecordView>::empty()
        =~= parts.map_values(|p: Seq<u8>| spec_record(p)));
    lemma_first_record_decides(parts, empty);
}

/// A buffer of one or more back-to-back complete records followed by a record
/// cut short after `k` bytes decodes to those records, and hands back exactly
/// the cut record's bytes as the remainder.
pub proof fn lemma_records_then_partial(parts: Seq<Seq<u8>>, next: Seq<u8>, k: nat)
    requires
        parts.len() >= 1,
        forall|i: int| 0 <= i < parts.len() ==> is_exact_record(#[trigger] parts[i]),
        record_outcome(next) is Ok,
        0 < k < record_len(next),
    ensures
        message_outcome(parts.flatten() + next.take(k as int)) == Ok::<
            (nat, Seq<RecordView>),
            NfcError,
        >((parts.flatten().len(), parts.map_values(|p: Seq<u8>| spec_record(p)))),
        message_rest(parts.flatten() + next.take(k as int)) == next.take(k as int),
{
    let cut = next.take(k as int);
    lemma_truncated_record_incomplete(next, k);
    lemma_records_then_tail(parts, cut);
    assert(message_records(cut) =~= Seq::<RecordView>::empty());
    assert(parts.map_values(|p: Seq<u8>| spec_record(p)) + Seq::<RecordView>::empty()
        =~= parts.map_values(|p: Seq<u8>| spec_record(p)));
    lemma_first_record_decides(parts, cut);
}

/// With a complete record in front, decoding a message does not fail.
proof fn lemma_first_record_decides(parts: Seq<Seq<u8>>, tail: Seq<u8>)
    requires
        parts.len() >= 1,
        is_exact_record(parts[0]),
    ensures
        record_outcome(parts.flatten() + tail) is Ok,
{
    let after = parts.drop_first().flatten() + tail;
    assert(parts.flatten() + tail =~= parts[0] + after);
    lemma_record_ignores_tail(parts[0], after);
}

} // verus!
