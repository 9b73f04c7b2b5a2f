//! The payload serializers: the wire-format families a generator can speak.

use vstd::prelude::*;
use crate::block::{Serialize, SerializeError};
use vstd::string::StringSliceAdditionalSpecFns;

verus! {

/// Append every byte of `src` to `out`.
fn push_bytes(out: &mut Vec<u8>, src: &[u8])
    ensures
        final(out)@ == old(out)@ + src@,
{
    let ghost base = out@;
    let mut i: usize = 0;
    while i < src.len()
        invariant
            i <= src@.len(),
            out@ == base + src@.take(i as int),
        decreases src@.len() - i,
    {
        proof {
            assert(src@.take(i + 1) =~= src@.take(i as int).push(src@[i as int]));
            assert(base + src@.take(i + 1) =~= (base + src@.take(i as int)).push(src@[i as int]));
        }
        out.push(src[i]);
        i += 1;
    }
    proof {
        assert(src@.take(src@.len() as int) =~= src@);
    }
}

/// Relies on rand's `Rng::gen_range` on an inclusive, non-empty range: a
/// uniform draw within the bounds.
#[verifier::external_body]
fn rand_in_range(rng: &mut rand::rngs::StdRng, lo: u64, hi: u64) -> (r: u64)
    requires
        lo <= hi,
    ensures
        lo <= r <= hi,
{
    rand::Rng::gen_range(rng, lo..=hi)
}

/// The bytes of the fixed RFC 5424 envelope every syslog record opens with:
/// priority, version, timestamp, hostname, app-name, procid, msgid and the
/// empty structured-data field.
pub open spec fn syslog_header_bytes() -> Seq<u8> {
    "<13>1 2024-01-01T00:00:00.000Z host.example.com lading 1234 ID100 - ".spec_bytes()
}

/// The shape of one record [`Syslog5424`] emits: the fixed 68-byte envelope,
/// one to 64 lowercase letters of message, and the closing newline.
pub open spec fn is_syslog_record(s: Seq<u8>) -> bool {
    &&& 70 <= s.len() <= 133
    &&& s.subrange(0, 68) == syslog_header_bytes()
    &&& forall|i: int| 68 <= i < s.len() - 1 ==> 97 <= #[trigger] s[i] <= 122
    &&& s.last() == 10u8
}

/// A sequence of whole syslog records: empty, or one record followed by more.
pub open spec fn is_syslog_stream(s: Seq<u8>) -> bool
    decreases s.len(),
{
    s.len() == 0 || (exists|n: int|
        70 <= n <= 133 && n <= s.len() && #[trigger] is_syslog_record(s.subrange(0, n))
            && is_syslog_stream(s.skip(n)))
}

/// Appending one whole record to a syslog stream yields a syslog stream.
proof fn lemma_syslog_stream_append(s: Seq<u8>, rec: Seq<u8>)
    requires
        is_syslog_stream(s),
        is_syslog_record(rec),
    ensures
        is_syslog_stream(s + rec),
    decreases s.len(),
{
    if s.len() == 0 {
        assert(s + rec =~= rec);
        assert(rec.subrange(0, rec.len() as int) =~= rec);
        assert(rec.skip(rec.len() as int) =~= Seq::<u8>::empty());
        assert(is_syslog_record(rec.subrange(0, rec.len() as int)));
        assert(is_syslog_stream(rec.skip(rec.len() as int)));
        assert(is_syslog_stream(rec));
    } else {
        let n = choose|n: int|
            70 <= n <= 133 && n <= s.len() && #[trigger] is_syslog_record(s.subrange(0, n))
                && is_syslog_stream(s.skip(n));
        lemma_syslog_stream_append(s.skip(n), rec);
        assert((s + rec).skip(n) =~= s.skip(n) + rec);
        assert((s + rec).subrange(0, n) =~= s.subrange(0, n));
        assert(is_syslog_record((s + rec).subrange(0, n)));
        assert(is_syslog_stream(s + rec));
    }
}

/// The renderer of RFC 5424 syslog records: newline-separated lines, each a
/// fixed valid envelope followed by a message of random lowercase letters.
#[derive(Debug)]
pub struct Syslog5424 {}

/// The longest record `Syslog5424` can emit: a 68-byte envelope, at most 64
/// message bytes, and the closing newline.
pub open spec fn syslog_max_record_len() -> int {
    133
}

impl Default for Syslog5424 {
    fn default() -> (r: Self)
        ensures
            r == (Syslog5424 {}),
    {
        Syslog5424 {}
    }
}

impl Serialize for Syslog5424 {
    open spec fn min_fill(&self) -> Option<int> {
        Some(syslog_max_record_len())
    }

    open spec fn infallible(&self) -> bool {
        true
    }

    open spec fn renders_empty(&self) -> bool {
        false
    }

    fn to_bytes(
        &self,
        rng: &mut rand::rngs::StdRng,
        max_bytes: usize,
        writer: &mut Vec<u8>,
    ) -> (r: Result<(), SerializeError>)
        ensures
            r is Ok,
            max_bytes >= syslog_max_record_len() ==> final(writer)@.len() > old(writer)@.len(),
            final(writer)@.len() > old(writer)@.len() ==> final(writer)@.last() == 10u8,
            is_syslog_stream(final(writer)@.skip(old(writer)@.len() as int)),
    {
        let header = "<13>1 2024-01-01T00:00:00.000Z host.example.com lading 1234 ID100 - ";
        proof {
            reveal_strlit("<13>1 2024-01-01T00:00:00.000Z host.example.com lading 1234 ID100 - ");
            assert(vstd::utf8::is_ascii_chars(header@));
            vstd::utf8::is_ascii_chars_encode_utf8(header@);
            assert(syslog_header_bytes() == header.spec_bytes());
            assert(header.spec_bytes().len() == 68);
        }
        let ghost base = writer@;
        proof {
            assert(writer@.skip(base.len() as int) =~= Seq::<u8>::empty());
        }
        let mut written: usize = 0;
        while max_bytes >= 133 && written <= max_bytes - 133
            invariant
                written <= max_bytes,
                writer@.len() == base.len() + written,
                writer@.subrange(0, base.len() as int) == base,
                written > 0 ==> writer@.last() == 10u8,
                header.spec_bytes().len() == 68,
                syslog_header_bytes() == header.spec_bytes(),
                is_syslog_stream(writer@.skip(base.len() as int)),
            decreases max_bytes - written,
        {
            let msg_len = rand_in_range(rng, 1, 64) as usize;
            let ghost pre_record = writer@;
            push_bytes(writer, header.as_bytes());
            proof {
                assert(writer@.subrange(0, base.len() as int) =~= base);
                assert(writer@.subrange(0, pre_record.len() as int) =~= pre_record);
                assert(writer@.subrange(pre_record.len() as int, pre_record.len() as int + 68)
                    =~= syslog_header_bytes());
            }
            let mut c: usize = 0;
            while c < msg_len
                invariant
                    c <= msg_len,
                    writer@.len() == base.len() + written + 68 + c,
                    writer@.len() == pre_record.len() as int + 68 + c,
                    writer@.subrange(0, base.len() as int) == base,
                    writer@.subrange(0, pre_record.len() as int) == pre_record,
                    writer@.subrange(pre_record.len() as int, pre_record.len() as int + 68)
                        == syslog_header_bytes(),
                    forall|i: int| pre_record.len() as int + 68 <= i < writer@.len()
                        ==> 97 <= #[trigger] writer@[i] <= 122,
                decreases msg_len - c,
            {
                let letter = rand_in_range(rng, 97, 122);
                writer.push(letter as u8);
                proof {
                    assert(writer@.subrange(0, base.len() as int) =~= base);
                    assert(writer@.subrange(0, pre_record.len() as int) =~= pre_record);
                    assert(writer@.subrange(pre_record.len() as int, pre_record.len() as int + 68)
                        =~= syslog_header_bytes());
                }
                c += 1;
            }
            writer.push(10u8);
            proof {
                assert(writer@.subrange(0, base.len() as int) =~= base);
                assert(writer@.subrange(0, pre_record.len() as int) =~= pre_record);
                assert(writer@.subrange(pre_record.len() as int, pre_record.len() as int + 68)
                    =~= syslog_header_bytes());
                let rec = writer@.skip(pre_record.len() as int);
                assert(rec.len() == 69 + msg_len);
                assert(rec.subrange(0, 68) =~= writer@.subrange(
                    pre_record.len() as int,
                    pre_record.len() as int + 68,
                ));
                assert forall|i: int| 68 <= i < rec.len() - 1 implies 97 <= #[trigger] rec[i]
                    <= 122 by {
                    assert(rec[i] == writer@[pre_record.len() as int + i]);
                }
                assert(rec.last() == 10u8);
                assert(is_syslog_record(rec));
                lemma_syslog_stream_append(pre_record.skip(base.len() as int), rec);
                assert(writer@.skip(base.len() as int) =~= pre_record.skip(base.len() as int)
                    + rec);
            }
            written = written + 68 + msg_len + 1;
        }
        Ok(())
    }
}

/// The shape of one record [`Fluent`] emits, MessagePack framed: a
/// three-element array of the fixstr tag "lading", a uint32 event time, and
/// a one-entry map from the fixstr key "message" to a fixstr of one to 31
/// lowercase letters.
pub open spec fn is_fluent_record(s: Seq<u8>) -> bool {
    &&& 24 <= s.len() <= 54
    &&& s[0] == 0x93u8
    &&& s[1] == 0xa6u8
    &&& s[2] == 108u8 && s[3] == 97u8 && s[4] == 100u8 && s[5] == 105u8 && s[6] == 110u8 && s[7]
        == 103u8
    &&& s[8] == 0xceu8
    &&& s[13] == 0x81u8
    &&& s[14] == 0xa7u8
    &&& s[15] == 109u8 && s[16] == 101u8 && s[17] == 115u8 && s[18] == 115u8 && s[19] == 97u8 && s[20]
        == 103u8 && s[21] == 101u8
    &&& s[22] == (160 + s.len() - 23) as u8
    &&& forall|i: int| 23 <= i < s.len() ==> 97 <= #[trigger] s[i] <= 122
}

/// A sequence of whole Fluent records: empty, or one record followed by more.
pub open spec fn is_fluent_stream(s: Seq<u8>) -> bool
    decreases s.len(),
{
    s.len() == 0 || (exists|n: int|
        24 <= n <= 54 && n <= s.len() && #[trigger] is_fluent_record(s.subrange(0, n))
            && is_fluent_stream(s.skip(n)))
}

/// Appending one whole record to a Fluent stream yields a Fluent stream.
proof fn lemma_fluent_stream_append(s: Seq<u8>, rec: Seq<u8>)
    requires
        is_fluent_stream(s),
        is_fluent_record(rec),
    ensures
        is_fluent_stream(s + rec),
    decreases s.len(),
{
    if s.len() == 0 {
        assert(s + rec =~= rec);
        assert(rec.subrange(0, rec.len() as int) =~= rec);
        assert(rec.skip(rec.len() as int) =~= Seq::<u8>::empty());
        assert(is_fluent_record(rec.subrange(0, rec.len() as int)));
        assert(is_fluent_stream(rec.skip(rec.len() as int)));
        assert(is_fluent_stream(rec));
    } else {
        let n = choose|n: int|
            24 <= n <= 54 && n <= s.len() && #[trigger] is_fluent_record(s.subrange(0, n))
                && is_fluent_stream(s.skip(n));
        lemma_fluent_stream_append(s.skip(n), rec);
        assert((s + rec).skip(n) =~= s.skip(n) + rec);
        assert((s + rec).subrange(0, n) =~= s.subrange(0, n));
        assert(is_fluent_record((s + rec).subrange(0, n)));
        assert(is_fluent_stream(s + rec));
    }
}

/// The renderer of Fluent forward-protocol records: MessagePack-framed
/// `[tag, time, record]` messages with a single random message field.
#[derive(Debug)]
pub struct Fluent {}

/// The longest record `Fluent` can emit: 23 framing and tag bytes and at
/// most 31 message bytes.
pub open spec fn fluent_max_record_len() -> int {
    54
}

impl Default for Fluent {
    fn default() -> (r: Self)
        ensures
            r == (Fluent {}),
    {
        Fluent {}
    }
}

impl Serialize for Fluent {
    open spec fn min_fill(&self) -> Option<int> {
        Some(fluent_max_record_len())
    }

    open spec fn infallible(&self) -> bool {
        true
    }

    open spec fn renders_empty(&self) -> bool {
        false
    }

    #[verifier::loop_isolation(false)]
    fn to_bytes(
        &self,
        rng: &mut rand::rngs::StdRng,
        max_bytes: usize,
        writer: &mut Vec<u8>,
    ) -> (r: Result<(), SerializeError>)
        ensures
            r is Ok,
            max_bytes >= fluent_max_record_len() ==> final(writer)@.len() > old(writer)@.len(),
            is_fluent_stream(final(writer)@.skip(old(writer)@.len() as int)),
    {
        let ghost base = writer@;
        proof {
            assert(writer@.skip(base.len() as int) =~= Seq::<u8>::empty());
        }
        let mut written: usize = 0;
        while max_bytes >= 54 && written <= max_bytes - 54
            invariant
                written <= max_bytes,
                writer@.len() == base.len() + written,
                writer@.subrange(0, base.len() as int) == base,
                is_fluent_stream(writer@.skip(base.len() as int)),
            decreases max_bytes - written,
        {
            let msg_len = rand_in_range(rng, 1, 31) as usize;
            // The event time, a uint32 of four random bytes.
            let time_a = rand_in_range(rng, 0, 255) as u8;
            let time_b = rand_in_range(rng, 0, 255) as u8;
            let time_c = rand_in_range(rng, 0, 255) as u8;
            let time_d = rand_in_range(rng, 0, 255) as u8;
            let mut rec: Vec<u8> = Vec::new();
            // A MessagePack array of three elements: tag, time, record.
            rec.push(0x93u8);
            // The tag, a fixstr: "lading".
            rec.push(0xa6u8);
            rec.push(108u8);
            rec.push(97u8);
            rec.push(100u8);
            rec.push(105u8);
            rec.push(110u8);
            rec.push(103u8);
            rec.push(0xceu8);
            rec.push(time_a);
            rec.push(time_b);
            rec.push(time_c);
            rec.push(time_d);
            // The record, a fixmap of one entry: "message" to a fixstr.
            rec.push(0x81u8);
            rec.push(0xa7u8);
            rec.push(109u8);
            rec.push(101u8);
            rec.push(115u8);
            rec.push(115u8);
            rec.push(97u8);
            rec.push(103u8);
            rec.push(101u8);
            rec.push((160 + msg_len) as u8);
            let ghost framing = rec@;
            proof {
                assert(framing =~= seq![
                    0x93u8,
                    0xa6u8,
                    108u8,
                    97u8,
                    100u8,
                    105u8,
                    110u8,
                    103u8,
                    0xceu8,
                    time_a,
                    time_b,
                    time_c,
                    time_d,
                    0x81u8,
                    0xa7u8,
                    109u8,
                    101u8,
                    115u8,
                    115u8,
                    97u8,
                    103u8,
                    101u8,
                    (160 + msg_len) as u8,
                ]);
            }
            let mut c: usize = 0;
            while c < msg_len
                invariant
                    c <= msg_len,
                    msg_len <= 31,
                    rec@.len() == 23 + c,
                    rec@.subrange(0, 23) == framing,
                    forall|i: int| 23 <= i < rec@.len() ==> 97 <= #[trigger] rec@[i] <= 122,
                decreases msg_len - c,
            {
                let letter = rand_in_range(rng, 97, 122);
                rec.push(letter as u8);
                proof {
                    assert(rec@.subrange(0, 23) =~= framing);
                }
                c += 1;
            }
            proof {
                assert forall|i: int| 0 <= i < 23 implies rec@[i] == framing[i] by {
                    assert(rec@.subrange(0, 23)[i] == rec@[i]);
                }
                assert(is_fluent_record(rec@));
            }
            let ghost pre_record = writer@;
            push_bytes(writer, rec.as_slice());
            proof {
                assert(writer@.subrange(0, base.len() as int) =~= base);
                lemma_fluent_stream_append(pre_record.skip(base.len() as int), rec@);
                assert(writer@.skip(base.len() as int) =~= pre_record.skip(base.len() as int)
                    + rec@);
            }
            written = written + 23 + msg_len;
        }
        Ok(())
    }
}

/// Where a prefix of `s` cut at `limit` would end if it is trimmed back to
/// the last newline at or before `limit`; zero when no newline is there.
pub open spec fn newline_cut(s: Seq<u8>, limit: int) -> int
    decreases limit,
{
    if limit <= 0 {
        0
    } else if s[limit - 1] == 10u8 {
        limit
    } else {
        newline_cut(s, limit - 1)
    }
}

/// Length of the prefix of `s` that the static renderer emits for the hint
/// `max`: the longest prefix fitting `max`, trimmed back to a line boundary
/// when one is in range.
pub open spec fn static_prefix_len(s: Seq<u8>, max: int) -> int {
    let limit = if max < s.len() { max } else { s.len() as int };
    if newline_cut(s, limit) > 0 {
        newline_cut(s, limit)
    } else {
        limit
    }
}

/// The renderer of user-supplied content: it emits a prefix of the content,
/// cut at a line boundary when possible.
#[derive(Debug)]
pub struct Static {
    /// The literal bytes this renderer reproduces.
    pub content: Vec<u8>,
}

impl Static {
    /// Wrap previously loaded content.
    pub fn new(content: Vec<u8>) -> (r: Self)
        ensures
            r.content@ == content@,
    {
        Static { content }
    }
}

impl Serialize for Static {
    open spec fn min_fill(&self) -> Option<int> {
        if self.content@.len() > 0 {
            Some(1)
        } else {
            None
        }
    }

    open spec fn infallible(&self) -> bool {
        true
    }

    open spec fn renders_empty(&self) -> bool {
        self.content@.len() == 0
    }

    fn to_bytes(
        &self,
        rng: &mut rand::rngs::StdRng,
        max_bytes: usize,
        writer: &mut Vec<u8>,
    ) -> (r: Result<(), SerializeError>)
        ensures
            r is Ok,
            final(writer)@ == old(writer)@ + self.content@.subrange(
                0,
                static_prefix_len(self.content@, max_bytes as int),
            ),
    {
        let limit = if max_bytes < self.content.len() {
            max_bytes
        } else {
            self.content.len()
        };
        let mut q: usize = limit;
        while q > 0 && self.content[q - 1] != 10
            invariant
                q <= limit <= self.content@.len(),
                newline_cut(self.content@, limit as int) == newline_cut(self.content@, q as int),
            decreases q,
        {
            q -= 1;
        }
        let cut = if q > 0 {
            q
        } else {
            limit
        };
        proof {
            assert(cut == static_prefix_len(self.content@, max_bytes as int));
        }
        let ghost base = writer@;
        let mut i: usize = 0;
        while i < cut
            invariant
                i <= cut <= self.content@.len(),
                writer@ == base + self.content@.subrange(0, i as int),
            decreases cut - i,
        {
            proof {
                assert(self.content@.subrange(0, i + 1) =~= self.content@.subrange(
                    0,
                    i as int,
                ).push(self.content@[i as int]));
                assert(base + self.content@.subrange(0, i + 1) =~= (base + self.content@.subrange(
                    0,
                    i as int,
                )).push(self.content@[i as int]));
            }
            let b = self.content[i];
            writer.push(b);
            i += 1;
        }
        Ok(())
    }
}

} // verus!
