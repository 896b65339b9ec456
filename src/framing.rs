//! What an emitted decoder decides, given what its collaborators report: the
//! header parser, and each field type's own `decode`.
//!
//! A field's report is the cursor's remaining length after the field was
//! decoded, or the field's error. Remaining lengths are measured on the
//! bytes after the header, which may run past the declared payload.
use vstd::prelude::*;

verus! {

/// The framing prefix of an encoded value.
#[derive(Clone, Copy, Debug, PartialEq, Eq, Structural)]
pub struct Header {
    /// the value is a list rather than a byte string
    pub list: bool,
    /// the length in bytes of the encoded content that follows the header
    pub payload_length: usize,
}

/// The ways decoding can fail.
#[derive(Clone, Copy, Debug, PartialEq, Eq, Structural)]
pub enum DecodeError {
    Overflow,
    LeadingZero,
    InputTooShort,
    NonCanonicalSingleByte,
    NonCanonicalSize,
    UnexpectedLength,
    /// a list-shaped type met a byte-string header
    UnexpectedString,
    UnexpectedList,
    /// the fields used up `got` bytes where the header declared `expected`
    ListLengthMismatch { expected: usize, got: usize },
}

/// The first error among the field reports, if any.
pub open spec fn first_error(fields: Seq<Result<usize, DecodeError>>) -> Option<DecodeError>
    decreases fields.len(),
{
    if fields.len() == 0 {
        None
    } else if let Err(e) = fields[0] {
        Some(e)
    } else {
        first_error(fields.skip(1))
    }
}

/// The bytes that the fields used up together, out of the `after_header`
/// bytes that followed the header.
pub open spec fn consumed(after_header: nat, fields: Seq<Result<usize, DecodeError>>) -> int {
    if fields.len() == 0 {
        0
    } else {
        after_header - fields.last()->Ok_0
    }
}

/// The outcome of a struct decoder over a buffer of `buf_len` bytes: on
/// success, how far the caller's cursor advances.
pub open spec fn struct_decode_result(
    buf_len: nat,
    header: Result<(Header, usize), DecodeError>,
    fields: Seq<Result<usize, DecodeError>>,
) -> Result<usize, DecodeError> {
    match header {
        Err(e) => Err(e),
        Ok((h, header_len)) => if !h.list {
            Err(DecodeError::UnexpectedString)
        } else if let Some(e) = first_error(fields) {
            Err(e)
        } else {
            let got = consumed((buf_len - header_len) as nat, fields);
            if got != h.payload_length {
                Err(DecodeError::ListLengthMismatch { expected: h.payload_length, got: got as usize })
            } else {
                Ok((header_len + h.payload_length) as usize)
            }
        },
    }
}

/// The reports are possible ones: the header lies within the buffer, and no
/// field leaves more behind than there was after the header.
pub open spec fn reports_wf(
    buf_len: nat,
    header: Result<(Header, usize), DecodeError>,
    fields: Seq<Result<usize, DecodeError>>,
) -> bool {
    header matches Ok((h, header_len)) ==> {
        &&& header_len <= buf_len
        &&& forall|i: int|
            0 <= i < fields.len() && #[trigger] fields[i] is Ok ==> fields[i]->Ok_0 <= buf_len
                - header_len
    }
}

/// The decision of a struct decoder: a byte-string header is refused, the
/// first failing field's error is passed on, and otherwise the bytes the
/// fields used up must be exactly the declared payload length. On success
/// the caller's cursor advances over the header and the payload.
///
/// `fields` holds one report per declared field, in declared order; reports
/// after the first error are never looked at.
pub fn decode_struct(
    buf_len: usize,
    header: Result<(Header, usize), DecodeError>,
    fields: &Vec<Result<usize, DecodeError>>,
) -> (r: Result<usize, DecodeError>)
    requires
        reports_wf(buf_len as nat, header, fields@),
    ensures
        r == struct_decode_result(buf_len as nat, header, fields@),
{
    let (rlp_head, header_len) = match header {
        Err(e) => {
            return Err(e);
        },
        Ok(h) => h,
    };
    if !rlp_head.list {
        return Err(DecodeError::UnexpectedString);
    }
    let started_len = buf_len - header_len;
    let mut remaining = started_len;
    let mut i: usize = 0;
    assert(fields@.skip(0) =~= fields@);
    while i < fields.len()
        invariant
            i <= fields@.len(),
            header == Ok::<(Header, usize), DecodeError>((rlp_head, header_len)),
            rlp_head.list,
            header_len <= buf_len,
            started_len == buf_len - header_len,
            reports_wf(buf_len as nat, header, fields@),
            remaining <= started_len,
            first_error(fields@) == first_error(fields@.skip(i as int)),
            remaining == if i == 0 {
                started_len
            } else {
                fields@[i - 1]->Ok_0
            },
        decreases fields@.len() - i,
    {
        assert(fields@.skip(i as int)[0] == fields@[i as int]);
        match fields[i] {
            Err(e) => {
                assert(fields@.skip(i as int).len() > 0);
                assert(first_error(fields@.skip(i as int)) == Some(e));
                return Err(e);
            },
            Ok(rest) => {
                remaining = rest;
            },
        }
        assert(fields@.skip(i as int).skip(1) =~= fields@.skip(i as int + 1));
        i += 1;
    }
    assert(first_error(fields@.skip(i as int)) == None::<DecodeError>);
    let consumed = started_len - remaining;
    if consumed != rlp_head.payload_length {
        return Err(
            DecodeError::ListLengthMismatch { expected: rlp_head.payload_length, got: consumed },
        );
    }
    Ok(header_len + consumed)
}

/// The decision of a wrapper decoder: whatever its single field reports.
pub fn decode_wrapper(field: Result<usize, DecodeError>) -> (r: Result<usize, DecodeError>)
    ensures
        r == field,
{
    match field {
        Ok(n) => Ok(n),
        Err(e) => Err(e),
    }
}


/// The bytes each field used up, in declared order: the cursor's remaining
/// length before the field less its remaining length after it, out of the
/// `after_header` bytes that followed the header.
pub open spec fn used_by_fields(after_header: nat, fields: Seq<Result<usize, DecodeError>>) -> int
    decreases fields.len(),
{
    if fields.len() == 0 {
        0
    } else {
        let before = if fields.len() == 1 {
            after_header as int
        } else {
            fields[fields.len() - 2]->Ok_0 as int
        };
        used_by_fields(after_header, fields.drop_last()) + (before - fields.last()->Ok_0)
    }
}

proof fn lemma_used_by_fields(after_header: nat, fields: Seq<Result<usize, DecodeError>>)
    ensures
        used_by_fields(after_header, fields) == consumed(after_header, fields),
    decreases fields.len(),
{
    if fields.len() > 0 {
        lemma_used_by_fields(after_header, fields.drop_last());
    }
}

proof fn lemma_no_error(fields: Seq<Result<usize, DecodeError>>)
    requires
        forall|i: int| 0 <= i < fields.len() ==> #[trigger] fields[i] is Ok,
    ensures
        first_error(fields) == None::<DecodeError>,
    decreases fields.len(),
{
    if fields.len() > 0 {
        let rest = fields.skip(1);
        assert forall|i: int| 0 <= i < rest.len() implies #[trigger] rest[i] is Ok by {
            assert(rest[i] == fields[i + 1]);
        }
        lemma_no_error(rest);
    }
}

/// When every field decodes, a struct decoder fails with
/// `ListLengthMismatch` exactly when the bytes the fields used up together
/// differ from the declared payload length; otherwise it succeeds and the
/// caller's cursor advances over the header and the declared payload.
pub proof fn lemma_struct_framing(
    buf_len: nat,
    h: Header,
    header_len: usize,
    fields: Seq<Result<usize, DecodeError>>,
)
    requires
        h.list,
        forall|i: int| 0 <= i < fields.len() ==> #[trigger] fields[i] is Ok,
        reports_wf(buf_len, Ok((h, header_len)), fields),
    ensures
        ({
            let r = struct_decode_result(buf_len, Ok((h, header_len)), fields);
            let used = used_by_fields((buf_len - header_len) as nat, fields);
            &&& used != h.payload_length ==> r == Err::<usize, DecodeError>(
                DecodeError::ListLengthMismatch { expected: h.payload_length, got: used as usize },
            )
            &&& used == h.payload_length ==> r == Ok::<usize, DecodeError>(
                (header_len + h.payload_length) as usize,
            ) && header_len + h.payload_length <= buf_len
        }),
{
    lemma_no_error(fields);
    lemma_used_by_fields((buf_len - header_len) as nat, fields);
    if fields.len() > 0 {
        assert(fields[fields.len() - 1] is Ok);
    }
}

/// A struct decoder refuses a byte-string header, whatever the declared
/// payload length and whatever its fields would report.
pub proof fn lemma_string_header_refused(
    buf_len: nat,
    h: Header,
    header_len: usize,
    fields: Seq<Result<usize, DecodeError>>,
)
    requires
        !h.list,
    ensures
        struct_decode_result(buf_len, Ok((h, header_len)), fields) == Err::<usize, DecodeError>(
            DecodeError::UnexpectedString,
        ),
{
}

/// A struct without fields decodes exactly when its list header declares an
/// empty payload, and then uses up the header alone.
pub proof fn lemma_zero_fields(buf_len: nat, h: Header, header_len: usize)
    requires
        h.list,
        header_len <= buf_len,
    ensures
        struct_decode_result(buf_len, Ok((h, header_len)), seq![]) == if h.payload_length == 0 {
            Ok::<usize, DecodeError>(header_len)
        } else {
            Err::<usize, DecodeError>(
                DecodeError::ListLengthMismatch { expected: h.payload_length, got: 0 },
            )
        },
{
}

} // verus!
