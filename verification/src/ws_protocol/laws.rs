//! What holds of packets, frames and bytes as a whole.
use super::frames;
use super::frames::Decoded;
use super::magic;
use super::{Content, KnownOperation, Operation};
use crate::text;
use crate::wire;
use vstd::prelude::*;
use vstd::utf8::*;

verus! {

/// Whether an operation that has a name goes by it, and not by its number.
pub open spec fn goes_by_name(operation: Operation) -> bool {
    operation matches Operation::Unknown(code) ==> magic::known_operation(code) is None
}

/// A number stands for one operation, whose number it is.
pub proof fn law_code_reads_back(code: u32)
    ensures
        super::operation_of(code).code() == code,
        goes_by_name(super::operation_of(code)),
{
}

/// An operation is what its number stands for, where it goes by its name if it has one.
pub proof fn law_operation_reads_back(operation: Operation)
    requires
        goes_by_name(operation),
    ensures
        super::operation_of(operation.code()) == operation,
{
    if let Operation::Known(known) = operation {
        magic::law_known_code_reads_back(known);
    }
}

/// The text of an operation without a name is no name.
pub proof fn law_number_is_no_name(code: u32, known: KnownOperation)
    ensures
        Operation::Unknown(code).spelling() != known.spelling(),
{
    reveal_strlit("Unknown(");
    magic::lemma_letters(known);
    let text = Operation::Unknown(code).spelling();
    assert(text[2] == 'k');
}

/// No two operations are spelled alike.
pub proof fn law_spellings_differ(a: Operation, b: Operation)
    requires
        a.spelling() == b.spelling(),
    ensures
        a == b,
{
    match (a, b) {
        (Operation::Known(known), Operation::Known(other)) => magic::law_names_differ(known, other),
        (Operation::Known(known), Operation::Unknown(code)) => law_number_is_no_name(code, known),
        (Operation::Unknown(code), Operation::Known(known)) => law_number_is_no_name(code, known),
        (Operation::Unknown(code), Operation::Unknown(other)) => {
            lemma_number_in_spelling(code);
            lemma_number_in_spelling(other);
            text::lemma_decimal_value(code as nat);
            text::lemma_decimal_value(other as nat);
        },
    }
}

/// Between the brackets of the text of an operation without a name stands its number.
pub(crate) proof fn lemma_number_in_spelling(code: u32)
    ensures
        ({
            let spelling = Operation::Unknown(code).spelling();
            &&& spelling.len() > 9
            &&& spelling.subrange(8, spelling.len() - 1) == text::decimal(code as nat)
        }),
{
    reveal_strlit("Unknown(");
    reveal_strlit(")");
    text::lemma_decimal_value(code as nat);
    let spelling = Operation::Unknown(code).spelling();
    assert(spelling.subrange(8, spelling.len() - 1) =~= text::decimal(code as nat));
}

/// The text of an operation is read back as the operation.
pub proof fn law_spelling_reads_back(operation: Operation)
    ensures
        super::operation_spelled(operation.spelling()) == Some(operation),
{
    law_spellings_differ(super::operation_spelled(operation.spelling())->0, operation);
}

/// Whether a body leaves room for its frame's size in four bytes.
pub open spec fn fits_a_frame(body: Seq<u8>) -> bool {
    magic::HEADER_SIZE + body.len() < 0x1_0000_0000
}

/// The header of a frame is read back field by field, whatever stands behind the frame. The
/// head size and the sequence id may be any.
#[verifier::spinoff_prover]
pub proof fn law_header_reads_back(
    head_size: u16,
    version: u16,
    code: u32,
    sequence_id: u32,
    body: Seq<u8>,
    rest: Seq<u8>,
)
    requires
        fits_a_frame(body),
    ensures
        ({
            let bytes = frames::frame_with(head_size, version, code, sequence_id, body) + rest;
            &&& bytes.len() >= magic::HEADER_SIZE
            &&& frames::frame_size(bytes) == magic::HEADER_SIZE + body.len()
            &&& frames::frame_size(bytes) <= bytes.len()
            &&& frames::frame_version(bytes) == version
            &&& frames::frame_operation(bytes) == super::operation_of(code)
            &&& frames::frame_body(bytes) == body
            &&& bytes.skip(frames::frame_size(bytes)) == rest
        }),
{
    let size = (magic::HEADER_SIZE + body.len()) as u32;
    let bytes = frames::frame_with(head_size, version, code, sequence_id, body) + rest;
    let from_code = wire::be_u32_bytes(sequence_id as int) + body + rest;
    let from_version = wire::be_u32_bytes(code as int) + from_code;
    let from_head = wire::be_u16_bytes(version as int) + from_version;
    let from_size = wire::be_u16_bytes(head_size as int) + from_head;
    assert(bytes =~= wire::be_u32_bytes(size as int) + from_size);
    assert(frames::frame_size(bytes) == size) by {
        wire::law_be_u32_reads_back(size, from_size);
    }
    assert(frames::frame_version(bytes) == version) by {
        assert(bytes.skip(6) =~= from_head);
        wire::law_be_u16_reads_back(version, from_version);
    }
    assert(frames::frame_operation(bytes) == super::operation_of(code)) by {
        assert(bytes.skip(8) =~= from_version);
        wire::law_be_u32_reads_back(code, from_code);
    }
    assert(frames::frame_body(bytes) =~= body);
    assert(bytes.skip(frames::frame_size(bytes)) =~= rest);
}

/// Whether the bytes are one frame, by the size that its header gives.
pub open spec fn is_frame(bytes: Seq<u8>) -> bool {
    magic::HEADER_SIZE <= bytes.len() == frames::frame_size(bytes)
}

/// A header with a body behind it is one frame, and says what was put into it.
pub proof fn law_written_frame_is_a_frame(
    head_size: u16,
    version: u16,
    code: u32,
    sequence_id: u32,
    body: Seq<u8>,
)
    requires
        fits_a_frame(body),
    ensures
        ({
            let bytes = frames::frame_with(head_size, version, code, sequence_id, body);
            &&& is_frame(bytes)
            &&& frames::frame_version(bytes) == version
            &&& frames::frame_operation(bytes) == super::operation_of(code)
            &&& frames::frame_body(bytes) == body
        }),
{
    let bytes = frames::frame_with(head_size, version, code, sequence_id, body);
    law_header_reads_back(head_size, version, code, sequence_id, body, Seq::empty());
    assert(bytes + Seq::empty() =~= bytes);
}

/// The head size and the sequence id of a frame play no part: bytes that differ nowhere else
/// than in those fields of the first header are read alike.
pub proof fn law_head_size_and_sequence_id_play_no_part(a: Seq<u8>, b: Seq<u8>, depth: nat)
    requires
        a.len() == b.len(),
        forall|i: int|
            0 <= i < a.len() && !(4 <= i < 6) && !(12 <= i < 16) ==> #[trigger] a[i] == b[i],
    ensures
        frames::decode(a, depth) == frames::decode(b, depth),
        frames::decoded(a) == frames::decoded(b),
{
    lemma_idle_fields(a, b, depth);
    let enough = frames::enough_depth(a);
    lemma_idle_fields(a, b, enough);
    if frames::decoded(a) is Malformed {
        let other = frames::enough_depth(b);
        lemma_idle_fields(a, b, other);
        if !(frames::decode(a, other) is Malformed) {
            frames::law_depth_does_not_matter(a, other);
        }
    } else {
        frames::law_depth_does_not_matter(b, enough);
    }
}

proof fn lemma_idle_fields(a: Seq<u8>, b: Seq<u8>, depth: nat)
    requires
        a.len() == b.len(),
        forall|i: int|
            0 <= i < a.len() && !(4 <= i < 6) && !(12 <= i < 16) ==> #[trigger] a[i] == b[i],
    ensures
        frames::decode(a, depth) == frames::decode(b, depth),
{
    if a.len() >= magic::HEADER_SIZE {
        let size = frames::frame_size(a);
        assert(frames::frame_size(b) == size);
        assert(frames::frame_version(b) == frames::frame_version(a));
        assert(frames::frame_operation(b) == frames::frame_operation(a));
        if magic::HEADER_SIZE <= size <= a.len() {
            assert(frames::frame_body(b) =~= frames::frame_body(a));
            assert(b.skip(size) =~= a.skip(size));
        }
    }
}

/// A packet that is written is read back, and what stands behind it is read as before. Not
/// so the reply to a heartbeat, whose body is read as a number.
pub proof fn law_packet_reads_back(content: Content, rest: Seq<u8>, depth: nat)
    requires
        content.operation.code() != KnownOperation::HeartbeatReply.code(),
        fits_a_frame(encode_utf8(content.body)),
        goes_by_name(content.operation),
    ensures
        frames::decode(frames::frame_of(content) + rest, depth) == frames::decode(
            rest,
            depth,
        ).preceded_by(seq![content]),
{
    let body = encode_utf8(content.body);
    law_header_reads_back(
        magic::HEADER_SIZE as u16,
        magic::VER_NORMAL,
        content.operation.code(),
        1,
        body,
        rest,
    );
    law_operation_reads_back(content.operation);
    encode_utf8_valid_utf8(content.body);
    encode_utf8_decode_utf8(content.body);
    assert(frames::decode_body(content.operation, magic::VER_NORMAL as int, body, depth)
        == Decoded::Packets(seq![content]));
}

/// A packet that goes by its number though it has a name is read back under the name.
pub proof fn law_packet_gets_its_name(code: u32, body: Seq<char>, rest: Seq<u8>, depth: nat)
    requires
        code != KnownOperation::HeartbeatReply.code(),
        fits_a_frame(encode_utf8(body)),
    ensures
        frames::decode(
            frames::frame_of(Content { operation: Operation::Unknown(code), body }) + rest,
            depth,
        ) == frames::decode(rest, depth).preceded_by(
            seq![Content { operation: super::operation_of(code), body }],
        ),
{
    law_code_reads_back(code);
    let content = Content { operation: super::operation_of(code), body };
    law_packet_reads_back(content, rest, depth);
    assert(frames::frame_of(Content { operation: Operation::Unknown(code), body })
        == frames::frame_of(content));
}

/// The frames of packets, one behind the other.
pub open spec fn frames_of(contents: Seq<Content>) -> Seq<u8>
    decreases contents.len(),
{
    if contents.len() == 0 {
        Seq::empty()
    } else {
        frames::frame_of(contents[0]) + frames_of(contents.skip(1))
    }
}

/// Packets that are written one behind the other are read back in their order.
pub proof fn law_packets_read_back(contents: Seq<Content>, depth: nat)
    requires
        forall|i: int|
            0 <= i < contents.len() ==> {
                &&& (#[trigger] contents[i]).operation.code()
                    != KnownOperation::HeartbeatReply.code()
                &&& fits_a_frame(encode_utf8(contents[i].body))
                &&& goes_by_name(contents[i].operation)
            },
    ensures
        frames::decode(frames_of(contents), depth) == Decoded::Packets(contents),
        frames::decoded(frames_of(contents)) == Decoded::Packets(contents),
    decreases contents.len(),
{
    if contents.len() == 0 {
        assert(contents =~= Seq::empty());
    } else {
        let rest = contents.skip(1);
        assert forall|i: int| 0 <= i < rest.len() implies {
            &&& (#[trigger] rest[i]).operation.code() != KnownOperation::HeartbeatReply.code()
            &&& fits_a_frame(encode_utf8(rest[i].body))
            &&& goes_by_name(rest[i].operation)
        } by {
            assert(rest[i] == contents[i + 1]);
        }
        law_packets_read_back(rest, depth);
        law_packet_reads_back(contents[0], frames_of(rest), depth);
        assert(seq![contents[0]] + rest =~= contents);
    }
    frames::law_depth_does_not_matter(frames_of(contents), depth);
}

/// A packet that is sent alone is received alone.
pub proof fn law_sent_packet_is_received(content: Content)
    requires
        content.operation.code() != KnownOperation::HeartbeatReply.code(),
        fits_a_frame(encode_utf8(content.body)),
        goes_by_name(content.operation),
    ensures
        frames::decoded(frames::frame_of(content)) == Decoded::Packets(seq![content]),
{
    let contents = seq![content];
    law_packets_read_back(contents, 0);
    assert(contents.skip(1) =~= Seq::empty());
    assert(frames_of(contents.skip(1)) =~= Seq::empty());
    assert(frames_of(contents) =~= frames::frame_of(content));
}

/// Whether frames fill the bytes to the last one.
pub open spec fn filled_by_frames(bytes: Seq<u8>) -> bool
    decreases bytes.len(),
{
    bytes.len() > 0 ==> {
        &&& bytes.len() >= magic::HEADER_SIZE
        &&& magic::HEADER_SIZE <= frames::frame_size(bytes) <= bytes.len()
        &&& filled_by_frames(bytes.skip(frames::frame_size(bytes)))
    }
}

/// Whole frames and what stands behind them are read independently: first the frames, then,
/// unless they fail, the rest.
pub proof fn law_frames_are_independent(bytes: Seq<u8>, rest: Seq<u8>, depth: nat)
    requires
        filled_by_frames(bytes),
    ensures
        frames::decode(bytes + rest, depth) == frames::decode(bytes, depth).followed_by(
            frames::decode(rest, depth),
        ),
    decreases bytes.len(),
{
    if bytes.len() == 0 {
        assert(bytes + rest =~= rest);
        let outcome = frames::decode(rest, depth);
        if let Decoded::Packets(packets) = outcome {
            assert(Seq::empty() + packets =~= packets);
        }
    } else {
        let all = bytes + rest;
        let size = frames::frame_size(bytes);
        let tail = bytes.skip(size);
        assert(frames::frame_size(all) == size);
        assert(all.skip(6)[0] == bytes.skip(6)[0] && all.skip(6)[1] == bytes.skip(6)[1]);
        assert(frames::frame_version(all) == frames::frame_version(bytes));
        assert(forall|i: int| 0 <= i < 4 ==> all.skip(8)[i] == bytes.skip(8)[i]);
        assert(frames::frame_operation(all) == frames::frame_operation(bytes));
        assert(frames::frame_body(all) =~= frames::frame_body(bytes));
        assert(all.skip(size) =~= tail + rest);
        law_frames_are_independent(tail, rest, depth);
        let here = frames::decode_body(
            frames::frame_operation(bytes),
            frames::frame_version(bytes),
            frames::frame_body(bytes),
            depth,
        );
        let then = frames::decode(tail, depth);
        let last = frames::decode(rest, depth);
        if here is Packets && then is Packets && last is Packets {
            assert(here->Packets_0 + (then->Packets_0 + last->Packets_0) =~= (here->Packets_0
                + then->Packets_0) + last->Packets_0);
        }
    }
}

/// Bytes behind the last frame that are too few for a header are ignored.
pub proof fn law_fragment_is_ignored(bytes: Seq<u8>, fragment: Seq<u8>, depth: nat)
    requires
        filled_by_frames(bytes),
        fragment.len() < magic::HEADER_SIZE,
    ensures
        frames::decode(bytes + fragment, depth) == frames::decode(bytes, depth),
{
    law_frames_are_independent(bytes, fragment, depth);
    let outcome = frames::decode(bytes, depth);
    if let Decoded::Packets(packets) = outcome {
        assert(packets + Seq::empty() =~= packets);
    }
}

/// Whole frames and what stands behind them are read independently, however deep bodies are
/// compressed in each other.
pub proof fn law_frames_are_read_in_turn(bytes: Seq<u8>, rest: Seq<u8>)
    requires
        filled_by_frames(bytes),
    ensures
        frames::decoded(bytes + rest) == frames::decoded(bytes).followed_by(frames::decoded(rest)),
{
    let all = bytes + rest;
    let first = frames::decoded(bytes);
    let second = frames::decoded(rest);
    if first is Packets && !(second is Malformed) {
        let a = frames::enough_depth(bytes);
        let b = frames::enough_depth(rest);
        let depth = if a <= b {
            b
        } else {
            a
        };
        frames::law_deeper_look_shows_the_same(bytes, a, depth);
        frames::law_deeper_look_shows_the_same(rest, b, depth);
        law_frames_are_independent(bytes, rest, depth);
        frames::law_depth_does_not_matter(all, depth);
    } else if first is Packets || first is Malformed {
        let depth = frames::enough_depth(all);
        law_frames_are_independent(bytes, rest, depth);
        if !(frames::decode(bytes, depth) is Malformed) {
            frames::law_depth_does_not_matter(bytes, depth);
        }
        if !(frames::decode(rest, depth) is Malformed) {
            frames::law_depth_does_not_matter(rest, depth);
        }
    } else {
        let depth = frames::enough_depth(bytes);
        law_frames_are_independent(bytes, rest, depth);
        frames::law_depth_does_not_matter(all, depth);
    }
}

/// One frame is filled by frames, and comes to what its body comes to.
proof fn lemma_one_frame(bytes: Seq<u8>, depth: nat)
    requires
        is_frame(bytes),
    ensures
        filled_by_frames(bytes),
        frames::decode(bytes, depth) == frames::decode_body(
            frames::frame_operation(bytes),
            frames::frame_version(bytes),
            frames::frame_body(bytes),
            depth,
        ),
{
    let behind = bytes.skip(frames::frame_size(bytes));
    assert(behind =~= Seq::empty());
    assert(filled_by_frames(behind));
    let here = frames::decode_body(
        frames::frame_operation(bytes),
        frames::frame_version(bytes),
        frames::frame_body(bytes),
        depth,
    );
    assert(frames::decode(behind, depth) == Decoded::Packets(Seq::empty()));
    assert(frames::decode(bytes, depth) == here.followed_by(frames::decode(behind, depth)));
    if let Decoded::Packets(packets) = here {
        assert(packets + Seq::empty() =~= packets);
    }
}

/// A packet that is sent is received, and then what stands behind it.
pub proof fn law_sent_packet_comes_first(content: Content, rest: Seq<u8>)
    requires
        content.operation.code() != KnownOperation::HeartbeatReply.code(),
        fits_a_frame(encode_utf8(content.body)),
        goes_by_name(content.operation),
    ensures
        frames::decoded(frames::frame_of(content) + rest) == frames::decoded(rest).preceded_by(
            seq![content],
        ),
{
    law_written_frame_is_a_frame(
        magic::HEADER_SIZE as u16,
        magic::VER_NORMAL,
        content.operation.code(),
        1,
        encode_utf8(content.body),
    );
    lemma_one_frame(frames::frame_of(content), 0);
    law_sent_packet_is_received(content);
    law_frames_are_read_in_turn(frames::frame_of(content), rest);
}

/// Bytes behind the last frame that are too few for a header are ignored, however deep
/// bodies are compressed in each other.
pub proof fn law_any_fragment_is_ignored(bytes: Seq<u8>, fragment: Seq<u8>)
    requires
        filled_by_frames(bytes),
        fragment.len() < magic::HEADER_SIZE,
    ensures
        frames::decoded(bytes + fragment) == frames::decoded(bytes),
{
    law_frames_are_read_in_turn(bytes, fragment);
    if let Decoded::Packets(packets) = frames::decoded(bytes) {
        assert(packets + Seq::empty() =~= packets);
    }
}

/// Any frame that is neither compressed nor the reply to a heartbeat is one packet with the
/// frame's body as text, and then comes what stands behind it. Where the body is no text, it
/// is a failure.
pub proof fn law_text_frame_is_read(bytes: Seq<u8>, rest: Seq<u8>)
    requires
        is_frame(bytes),
        frames::frame_version(bytes) != magic::VER_ZLIB_COMPRESSED,
        frames::frame_version(bytes) != magic::VER_BROTLI_COMPRESSED,
        frames::frame_operation(bytes) == Operation::Known(KnownOperation::HeartbeatReply)
            ==> frames::frame_version(bytes) != magic::VER_NORMAL,
    ensures
        frames::decoded(bytes + rest) == (if valid_utf8(frames::frame_body(bytes)) {
            frames::decoded(rest).preceded_by(
                seq![
                    Content {
                        operation: frames::frame_operation(bytes),
                        body: decode_utf8(frames::frame_body(bytes)),
                    },
                ],
            )
        } else {
            Decoded::Encoding(frames::frame_body(bytes))
        }),
{
    lemma_one_frame(bytes, frames::enough_depth(bytes));
    law_frames_are_read_in_turn(bytes, rest);
}

/// Any reply to a heartbeat is read as the number at the front of its body, in decimal, and
/// then comes what stands behind it. Where the body is too short, it is a failure.
pub proof fn law_heartbeat_reply_reads_a_number(bytes: Seq<u8>, rest: Seq<u8>)
    requires
        is_frame(bytes),
        frames::frame_version(bytes) == magic::VER_NORMAL,
        frames::frame_operation(bytes) == Operation::Known(KnownOperation::HeartbeatReply),
    ensures
        frames::decoded(bytes + rest) == (if frames::frame_body(bytes).len() >= 4 {
            frames::decoded(rest).preceded_by(
                seq![
                    Content {
                        operation: Operation::Known(KnownOperation::HeartbeatReply),
                        body: text::decimal(wire::be_u32(frames::frame_body(bytes)) as nat),
                    },
                ],
            )
        } else {
            Decoded::Io(wire::IoCause::ShortNumber(frames::frame_body(bytes)))
        }),
{
    lemma_one_frame(bytes, frames::enough_depth(bytes));
    law_frames_are_read_in_turn(bytes, rest);
}

/// Out of any compressed frame come the packets in it, whatever the frame's own operation
/// is, and then what stands behind it. Where something else than packets is in it, it is no
/// frame; where it does not decompress, it is a failure.
pub proof fn law_compressed_frame_is_opened(bytes: Seq<u8>, rest: Seq<u8>)
    requires
        is_frame(bytes),
        frames::frame_version(bytes) == magic::VER_ZLIB_COMPRESSED || frames::frame_version(bytes)
            == magic::VER_BROTLI_COMPRESSED,
    ensures
        frames::decoded(bytes + rest) == match frames::inflated(
            frames::frame_version(bytes),
            frames::frame_body(bytes),
        ) {
            None => Decoded::Io(
                if frames::frame_version(bytes) == magic::VER_ZLIB_COMPRESSED {
                    wire::IoCause::Zlib(frames::frame_body(bytes))
                } else {
                    wire::IoCause::Brotli(frames::frame_body(bytes))
                },
            ),
            Some(inner) => if frames::decoded(inner) is Packets {
                frames::decoded(inner).followed_by(frames::decoded(rest))
            } else {
                Decoded::Malformed
            },
        },
{
    let depth = frames::enough_depth(bytes);
    lemma_one_frame(bytes, depth);
    law_frames_are_read_in_turn(bytes, rest);
    if let Some(inner) = frames::inflated(frames::frame_version(bytes), frames::frame_body(bytes)) {
        if frames::decoded(inner) is Packets {
            let enough = frames::enough_depth(inner);
            lemma_one_frame(bytes, enough + 1);
            frames::law_depth_does_not_matter(bytes, enough + 1);
        } else if depth > 0 && !(frames::decode(inner, (depth - 1) as nat) is Malformed) {
            frames::law_depth_does_not_matter(inner, (depth - 1) as nat);
        }
    }
}

/// Packets that are written one behind the other, and then compressed into any one frame,
/// are read back in their order, and then what stands behind the frame.
pub proof fn law_compressed_packets_read_back(
    contents: Seq<Content>,
    bytes: Seq<u8>,
    rest: Seq<u8>,
)
    requires
        is_frame(bytes),
        frames::frame_version(bytes) == magic::VER_ZLIB_COMPRESSED || frames::frame_version(bytes)
            == magic::VER_BROTLI_COMPRESSED,
        frames::inflated(frames::frame_version(bytes), frames::frame_body(bytes)) == Some(
            frames_of(contents),
        ),
        forall|i: int|
            0 <= i < contents.len() ==> {
                &&& (#[trigger] contents[i]).operation.code()
                    != KnownOperation::HeartbeatReply.code()
                &&& fits_a_frame(encode_utf8(contents[i].body))
                &&& goes_by_name(contents[i].operation)
            },
    ensures
        frames::decoded(bytes + rest) == frames::decoded(rest).preceded_by(contents),
{
    law_packets_read_back(contents, 0);
    law_compressed_frame_is_opened(bytes, rest);
}

} // verus!
