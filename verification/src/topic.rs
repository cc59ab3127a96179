//! What the library makes of what a cluster reports about its topics and its consumer
//! groups: the topics in the metadata of a group member, and the number of messages in a
//! topic.
use crate::text::equals;
use byteorder::{BigEndian, ByteOrder};
use vstd::prelude::*;
use vstd::utf8::{decode_utf8, encode_utf8, encode_utf8_decode_utf8, encode_utf8_valid_utf8, valid_utf8};

verus! {

/// The topic and the partitions assigned to a member.
#[derive(Debug)]
pub struct MemberAssignment {
    pub topic: String,
    pub partitions: Vec<i32>,
}

/// The signed 16-bit integer written big-endian in two bytes.
pub open spec fn be_i16(b0: u8, b1: u8) -> int {
    let u = b0 as int * 0x100 + b1 as int;
    if u >= 0x8000 {
        u - 0x10000
    } else {
        u
    }
}

/// The signed 32-bit integer written big-endian in four bytes.
pub open spec fn be_i32(b0: u8, b1: u8, b2: u8, b3: u8) -> int {
    let u = b0 as int * 0x1000000 + b1 as int * 0x10000 + b2 as int * 0x100 + b3 as int;
    if u >= 0x80000000 {
        u - 0x100000000
    } else {
        u
    }
}

/// Calls byteorder's `BigEndian::read_i16`, which reads a signed 16-bit integer from the
/// first two bytes of `buf`, most significant byte first.
#[verifier::external_body]
fn read_be_i16(buf: &[u8]) -> (value: i16)
    requires
        buf@.len() >= 2,
    ensures
        value as int == be_i16(buf@[0], buf@[1]),
{
    BigEndian::read_i16(buf)
}

/// Calls byteorder's `BigEndian::read_i32`, which reads a signed 32-bit integer from the
/// first four bytes of `buf`, most significant byte first.
#[verifier::external_body]
fn read_be_i32(buf: &[u8]) -> (value: i32)
    requires
        buf@.len() >= 4,
    ensures
        value as int == be_i32(buf@[0], buf@[1], buf@[2], buf@[3]),
{
    BigEndian::read_i32(buf)
}

/// Calls `std::str::from_utf8`, which gives the text that `bytes` encode when they are valid
/// UTF-8, and fails otherwise.
#[verifier::external_body]
fn utf8_text(bytes: &[u8]) -> (text: Option<&str>)
    ensures
        text is Some <==> valid_utf8(bytes@),
        text matches Some(t) ==> t@ == decode_utf8(bytes@),
{
    std::str::from_utf8(bytes).ok()
}

/// `count` topic names read one after the other from the front of `bytes`: each is a
/// big-endian signed 16-bit length followed by that many bytes of UTF-8. `None` when a
/// length is missing or negative, when the bytes run out, or when a name is not UTF-8.
pub open spec fn read_topic_names(bytes: Seq<u8>, count: nat) -> Option<Seq<Seq<char>>>
    decreases count,
{
    if count == 0 {
        Some(Seq::empty())
    } else if bytes.len() < 2 {
        None
    } else {
        let len = be_i16(bytes[0], bytes[1]);
        if len < 0 || bytes.len() < 2 + len {
            None
        } else if !valid_utf8(bytes.subrange(2, 2 + len)) {
            None
        } else {
            match read_topic_names(bytes.skip(2 + len), (count - 1) as nat) {
                Some(rest) => Some(seq![decode_utf8(bytes.subrange(2, 2 + len))] + rest),
                None => None,
            }
        }
    }
}

/// The topics that the metadata of a consumer group member lists: after a 16-bit version
/// comes a 32-bit count of topics, then the topic names. A count that is not positive
/// lists no topic. `None` when the metadata is too short for the version and the count,
/// or when the names cannot be read.
pub open spec fn member_topic_names(metadata: Seq<u8>) -> Option<Seq<Seq<char>>> {
    if metadata.len() < 6 {
        None
    } else {
        let count = be_i32(metadata[2], metadata[3], metadata[4], metadata[5]);
        if count <= 0 {
            Some(Seq::empty())
        } else {
            read_topic_names(metadata.skip(6), count as nat)
        }
    }
}

/// The names that follow `done` once `rest` has been read.
pub open spec fn after_names(done: Seq<Seq<char>>, rest: Option<Seq<Seq<char>>>) -> Option<
    Seq<Seq<char>>,
> {
    match rest {
        Some(r) => Some(done + r),
        None => None,
    }
}

/// The topic names that can be read from the front of `bytes`, at most `count` of them,
/// stopping at the first that cannot be read.
pub open spec fn leading_topic_names(bytes: Seq<u8>, count: nat) -> Seq<Seq<char>>
    decreases count,
{
    if count == 0 || bytes.len() < 2 {
        Seq::empty()
    } else {
        let len = be_i16(bytes[0], bytes[1]);
        if len < 0 || bytes.len() < 2 + len || !valid_utf8(bytes.subrange(2, 2 + len)) {
            Seq::empty()
        } else {
            seq![decode_utf8(bytes.subrange(2, 2 + len))] + leading_topic_names(
                bytes.skip(2 + len),
                (count - 1) as nat,
            )
        }
    }
}

/// The topics that can be read from the metadata of a group member before the first that
/// cannot: all of them when the metadata is well formed.
pub open spec fn member_topic_prefix(metadata: Seq<u8>) -> Seq<Seq<char>> {
    if metadata.len() < 6 {
        Seq::empty()
    } else {
        let count = be_i32(metadata[2], metadata[3], metadata[4], metadata[5]);
        if count <= 0 {
            Seq::empty()
        } else {
            leading_topic_names(metadata.skip(6), count as nat)
        }
    }
}

/// The topics that the metadata of a consumer group member lists, as `member_topic_names`
/// describes them. When they cannot all be read, the error holds those read before the
/// first that could not, as `member_topic_prefix` describes them.
pub fn parse_member_topics(metadata: &[u8]) -> (topics: Result<Vec<String>, Vec<String>>)
    ensures
        topics is Ok <==> member_topic_names(metadata@) is Some,
        topics matches Ok(t) ==> t@.map_values(|s: String| s@) == member_topic_names(
            metadata@,
        ).unwrap(),
        topics matches Err(t) ==> t@.map_values(|s: String| s@) == member_topic_prefix(metadata@),
{
    let mut topics: Vec<String> = Vec::new();
    if metadata.len() < 6 {
        assert(topics@.map_values(|s: String| s@) =~= Seq::<Seq<char>>::empty());
        return Err(topics);
    }
    let _version = read_be_i16(&metadata[0..2]);
    let count = read_be_i32(&metadata[2..6]);
    if count <= 0 {
        assert(topics@.map_values(|s: String| s@) =~= Seq::<Seq<char>>::empty());
        return Ok(topics);
    }
    let ghost bytes = metadata@;
    let mut pos: usize = 6;
    let mut read: i32 = 0;
    proof {
        assert(topics@.map_values(|s: String| s@) =~= Seq::<Seq<char>>::empty());
        assert(Seq::<Seq<char>>::empty() + read_topic_names(bytes.skip(6), count as nat).unwrap()
            =~= read_topic_names(bytes.skip(6), count as nat).unwrap());
        assert(Seq::<Seq<char>>::empty() + leading_topic_names(bytes.skip(6), count as nat)
            =~= leading_topic_names(bytes.skip(6), count as nat));
    }
    while read < count
        invariant
            bytes == metadata@,
            6 <= pos <= bytes.len(),
            0 <= read <= count,
            member_topic_names(bytes) == after_names(
                topics@.map_values(|s: String| s@),
                read_topic_names(bytes.skip(pos as int), (count - read) as nat),
            ),
            member_topic_prefix(bytes) == topics@.map_values(|s: String| s@)
                + leading_topic_names(bytes.skip(pos as int), (count - read) as nat),
        decreases count - read,
    {
        let ghost rest = bytes.skip(pos as int);
        let ghost done = topics@.map_values(|s: String| s@);
        proof {
            assert(done + Seq::<Seq<char>>::empty() =~= done);
        }
        if metadata.len() - pos < 2 {
            return Err(topics);
        }
        let len = read_be_i16(&metadata[pos..pos + 2]);
        assert(rest[0] == bytes[pos as int] && rest[1] == bytes[pos + 1]);
        if len < 0 {
            return Err(topics);
        }
        let len = len as usize;
        if metadata.len() - pos - 2 < len {
            return Err(topics);
        }
        let start = pos + 2;
        assert(rest.subrange(2, 2 + len) =~= bytes.subrange(start as int, start + len));
        assert(rest.skip(2 + len) =~= bytes.skip(start + len));
        match utf8_text(&metadata[start..start + len]) {
            None => {
                return Err(topics);
            },
            Some(text) => {
                topics.push(text.to_owned());
            },
        }
        assert(topics@.map_values(|s: String| s@) =~= done.push(
            decode_utf8(bytes.subrange(start as int, start + len)),
        ));
        proof {
            let name = decode_utf8(bytes.subrange(start as int, start + len));
            match read_topic_names(bytes.skip(start + len), (count - read - 1) as nat) {
                Some(r) => {
                    assert(done + (seq![name] + r) =~= done.push(name) + r);
                },
                None => {},
            }
            let lead = leading_topic_names(bytes.skip(start + len), (count - read - 1) as nat);
            assert(done + (seq![name] + lead) =~= done.push(name) + lead);
        }
        pos = start + len;
        read = read + 1;
    }
    assert(read_topic_names(bytes.skip(pos as int), 0) == Some(Seq::<Seq<char>>::empty()));
    assert(topics@.map_values(|s: String| s@) + Seq::<Seq<char>>::empty() =~= topics@.map_values(
        |s: String| s@,
    ));
    Ok(topics)
}

/// The topics of a group member, as far as the listing of a consumer group shows them.
#[derive(Debug)]
pub enum MemberTopics {
    /// The group does not use the consumer protocol, or the member has no metadata.
    NotListed,
    /// The topics that the member's metadata lists.
    Listed(Vec<String>),
    /// The member's metadata cannot be read in full; these are the topics read before the
    /// first that could not be.
    Malformed(Vec<String>),
}

/// The topics of a member of a group that uses `protocol_type`: only the metadata of a
/// member of a group of the consumer protocol lists topics.
pub fn member_topics(protocol_type: &str, metadata: Option<&[u8]>) -> (topics: MemberTopics)
    ensures
        (metadata is None || protocol_type@ != "consumer"@) ==> topics is NotListed,
        metadata matches Some(m) ==> (protocol_type@ == "consumer"@ ==> match member_topic_names(
            m@,
        ) {
            Some(names) => topics matches MemberTopics::Listed(t) && t@.map_values(|s: String| s@)
                == names,
            None => topics matches MemberTopics::Malformed(t) && t@.map_values(|s: String| s@)
                == member_topic_prefix(m@),
        }),
{
    match metadata {
        Some(m) => {
            if equals(protocol_type, "consumer") {
                match parse_member_topics(m) {
                    Ok(t) => MemberTopics::Listed(t),
                    Err(t) => MemberTopics::Malformed(t),
                }
            } else {
                MemberTopics::NotListed
            }
        },
        None => MemberTopics::NotListed,
    }
}

/// The low and high watermarks of a partition, or -1 for both when they could not be
/// fetched.
pub open spec fn watermarks_or_unknown_spec(fetched: Option<(i64, i64)>) -> (i64, i64) {
    match fetched {
        Some(w) => w,
        None => (-1i64, -1i64),
    }
}

/// The low and high watermarks of a partition, or -1 for both when they could not be
/// fetched.
pub fn watermarks_or_unknown(fetched: Option<(i64, i64)>) -> (w: (i64, i64))
    ensures
        w == watermarks_or_unknown_spec(fetched),
{
    match fetched {
        Some(w) => w,
        None => (-1, -1),
    }
}

/// The number of messages between the low and the high watermark.
pub open spec fn messages_between(w: (i64, i64)) -> int {
    w.1 - w.0
}

/// The number of messages in the partitions of the given watermarks.
pub open spec fn total_messages(watermarks: Seq<(i64, i64)>) -> int
    decreases watermarks.len(),
{
    if watermarks.len() == 0 {
        0
    } else {
        total_messages(watermarks.drop_last()) + messages_between(watermarks.last())
    }
}

/// The number of messages between the low and the high watermark of a partition.
pub fn watermark_difference(w: (i64, i64)) -> (n: i64)
    requires
        i64::MIN <= messages_between(w) <= i64::MAX,
    ensures
        n == messages_between(w),
{
    w.1 - w.0
}

/// The number of messages in a topic: the sum over its partitions of the difference between
/// the high and the low watermark.
pub fn message_count(watermarks: &Vec<(i64, i64)>) -> (n: i64)
    requires
        forall|i: int|
            0 <= i < watermarks@.len() ==> i64::MIN <= #[trigger] messages_between(watermarks@[i])
                <= i64::MAX,
        forall|i: int|
            0 <= i <= watermarks@.len() ==> i64::MIN <= #[trigger] total_messages(
                watermarks@.take(i),
            ) <= i64::MAX,
    ensures
        n == total_messages(watermarks@),
{
    let mut count: i64 = 0;
    assert(watermarks@.take(0) =~= Seq::<(i64, i64)>::empty());
    for i in 0..watermarks.len()
        invariant
            count == total_messages(watermarks@.take(i as int)),
            forall|j: int|
                0 <= j < watermarks@.len() ==> i64::MIN <= #[trigger] messages_between(
                    watermarks@[j],
                ) <= i64::MAX,
            forall|j: int|
                0 <= j <= watermarks@.len() ==> i64::MIN <= #[trigger] total_messages(
                    watermarks@.take(j),
                ) <= i64::MAX,
    {
        assert(watermarks@.take(i + 1).drop_last() =~= watermarks@.take(i as int));
        let difference = watermark_difference(watermarks[i]);
        assert(total_messages(watermarks@.take(i + 1)) == count + difference);
        count = count + difference;
    }
    assert(watermarks@.take(watermarks@.len() as int) =~= watermarks@);
    count
}

/// A topic name as member metadata writes it: the length of its UTF-8 encoding on two
/// bytes, most significant first, then the encoding.
pub open spec fn encode_topic_name(name: Seq<char>) -> Seq<u8> {
    let bytes = encode_utf8(name);
    seq![(bytes.len() / 0x100) as u8, (bytes.len() % 0x100) as u8] + bytes
}

/// Topic names written one after the other.
pub open spec fn encode_topic_names(names: Seq<Seq<char>>) -> Seq<u8>
    decreases names.len(),
{
    if names.len() == 0 {
        Seq::empty()
    } else {
        encode_topic_name(names[0]) + encode_topic_names(names.drop_first())
    }
}

/// A count of topics on four bytes, most significant first.
pub open spec fn encode_topic_count(count: nat) -> Seq<u8> {
    seq![
        (count / 0x1000000) as u8,
        (count / 0x10000 % 0x100) as u8,
        (count / 0x100 % 0x100) as u8,
        (count % 0x100) as u8,
    ]
}

/// The names fit the format: each encoding is shorter than 0x8000 bytes.
pub open spec fn names_fit(names: Seq<Seq<char>>) -> bool {
    forall|i: int| 0 <= i < names.len() ==> #[trigger] encode_utf8(names[i]).len() < 0x8000
}

/// Reading back names that were written gives the names, whatever follows them.
pub proof fn lemma_topic_names_round_trip(names: Seq<Seq<char>>, tail: Seq<u8>)
    requires
        names_fit(names),
    ensures
        read_topic_names(encode_topic_names(names) + tail, names.len()) == Some(names),
    decreases names.len(),
{
    if names.len() > 0 {
        let first = encode_utf8(names[0]);
        let len: int = first.len() as int;
        let rest = names.drop_first();
        let bytes = encode_topic_names(names) + tail;
        assert(names_fit(rest)) by {
            assert forall|i: int| 0 <= i < rest.len() implies #[trigger] encode_utf8(rest[i]).len() < 0x8000 by {
                assert(rest[i] == names[i + 1]);
            }
        }
        assert(len < 0x8000) by {
            assert(encode_utf8(names[0]).len() < 0x8000);
        }
        assert(bytes[0] == (len / 0x100) as u8);
        assert(bytes[1] == (len % 0x100) as u8);
        assert(be_i16(bytes[0], bytes[1]) == len);
        assert(bytes.subrange(2, 2 + len) =~= first);
        assert(bytes.skip(2 + len) =~= encode_topic_names(rest) + tail);
        encode_utf8_valid_utf8(names[0]);
        encode_utf8_decode_utf8(names[0]);
        lemma_topic_names_round_trip(rest, tail);
        assert(seq![names[0]] + rest =~= names);
    }
}

/// Reading the topics of member metadata that was written with a version, a count and the
/// names gives the names back, whatever follows them.
pub proof fn lemma_member_metadata_round_trip(version: Seq<u8>, names: Seq<Seq<char>>, tail: Seq<u8>)
    requires
        version.len() == 2,
        names.len() < 0x80000000,
        names_fit(names),
    ensures
        member_topic_names(version + encode_topic_count(names.len()) + encode_topic_names(names) + tail)
            == Some(names),
{
    let count = encode_topic_count(names.len());
    let metadata = version + count + encode_topic_names(names) + tail;
    assert(metadata[2] == count[0] && metadata[3] == count[1] && metadata[4] == count[2] && metadata[5] == count[3]);
    assert(be_i32(count[0], count[1], count[2], count[3]) == names.len());
    assert(metadata.skip(6) =~= encode_topic_names(names) + tail);
    lemma_topic_names_round_trip(names, tail);
    if names.len() == 0 {
        assert(names =~= Seq::<Seq<char>>::empty());
    }
}

/// When all the names can be read, the names read before a failure are all of them.
pub proof fn lemma_leading_names_complete(bytes: Seq<u8>, count: nat)
    requires
        read_topic_names(bytes, count) is Some,
    ensures
        leading_topic_names(bytes, count) == read_topic_names(bytes, count).unwrap(),
    decreases count,
{
    if count > 0 {
        let len = be_i16(bytes[0], bytes[1]);
        lemma_leading_names_complete(bytes.skip(2 + len), (count - 1) as nat);
    }
}

/// For well-formed member metadata, the topics read before the first failure are all the
/// topics it lists.
pub proof fn lemma_member_prefix_complete(metadata: Seq<u8>)
    requires
        member_topic_names(metadata) is Some,
    ensures
        member_topic_prefix(metadata) == member_topic_names(metadata).unwrap(),
{
    if metadata.len() >= 6 {
        let count = be_i32(metadata[2], metadata[3], metadata[4], metadata[5]);
        if count > 0 {
            lemma_leading_names_complete(metadata.skip(6), count as nat);
        }
    }
}

/// Fetched watermarks pass through unchanged; only a failed fetch gives -1 for both.
pub proof fn lemma_fetched_watermarks_kept(low: i64, high: i64)
    ensures
        watermarks_or_unknown_spec(Some((low, high))) == (low, high),
        watermarks_or_unknown_spec(None) == (-1i64, -1i64),
{
}

/// The messages of a partition are its high watermark minus its low one.
pub proof fn lemma_messages_of_partition(low: i64, high: i64)
    ensures
        messages_between((low, high)) == high - low,
{
}

/// The count of a topic adds up its partitions: no partition counts nothing, one partition
/// counts its high watermark minus its low one wherever it stands, and the count of two runs
/// of partitions put together is the sum of their counts.
pub proof fn lemma_total_messages_sum(
    before: Seq<(i64, i64)>,
    low: i64,
    high: i64,
    after: Seq<(i64, i64)>,
)
    ensures
        total_messages(Seq::<(i64, i64)>::empty()) == 0,
        total_messages(seq![(low, high)]) == high - low,
        total_messages(before + after) == total_messages(before) + total_messages(after),
        total_messages(before + seq![(low, high)] + after) == total_messages(before) + (high - low)
            + total_messages(after),
{
    lemma_total_messages_concat(before, after);
    lemma_total_messages_concat(before, seq![(low, high)]);
    lemma_total_messages_concat(before + seq![(low, high)], after);
    assert(seq![(low, high)].drop_last() =~= Seq::<(i64, i64)>::empty());
}

proof fn lemma_total_messages_concat(a: Seq<(i64, i64)>, b: Seq<(i64, i64)>)
    ensures
        total_messages(a + b) == total_messages(a) + total_messages(b),
    decreases b.len(),
{
    if b.len() == 0 {
        assert(a + b =~= a);
    } else {
        assert((a + b).drop_last() =~= a + b.drop_last());
        assert((a + b).last() == b.last());
        lemma_total_messages_concat(a, b.drop_last());
    }
}

/// A partition whose watermarks could not be fetched adds no message to the count.
pub proof fn lemma_unknown_watermarks_count_nothing()
    ensures
        messages_between(watermarks_or_unknown_spec(None)) == 0,
{
}

} // verus!
