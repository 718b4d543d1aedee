//! The offset sidecar of a video: for every frame, in decode order, the byte
//! offset of its packet and the byte offset of the keyframe that decoding
//! must start from.
//!
//! The sidecar is written next to a transcoded video and read by clients,
//! which turn it into frame requests.

use crate::json::{decimal, json_parse, json_quote, push_decimal, push_quoted, JsonModel, JsonValue};
use crate::protocol::{
    array_member, get_text, get_unsigned, is_object, item_models, outcome_view, text_member,
    unsigned_member, Field, FrameRequest, ProtocolError, ProtocolErrorView,
};
use vstd::prelude::*;

verus! {

/// What a demuxer reports of one packet.
#[derive(Debug, Clone, Copy, PartialEq, Eq, Structural)]
pub struct PacketInfo {
    /// Index of the packet's stream.
    pub stream: usize,
    /// Byte position in the container; negative where it is unknown.
    pub position: i64,
    /// The packet holds a keyframe.
    pub is_key: bool,
}

/// One frame of the sidecar.
#[derive(Debug, Clone, Copy, PartialEq, Eq, Structural)]
pub struct FrameEntry {
    /// Byte offset of the frame's packet.
    pub offset: u64,
    /// Byte offset of the keyframe needed to decode the frame.
    pub irap_offset: u64,
}

/// The sidecar of one video.
#[derive(Debug, Clone, PartialEq, Eq)]
pub struct FrameOffsets {
    /// Where the video is stored.
    pub video_url: String,
    /// The frames in decode order.
    pub frames: Vec<FrameEntry>,
}

/// The mathematical value of [`FrameOffsets`].
pub struct FrameOffsetsView {
    pub video_url: Seq<char>,
    pub frames: Seq<FrameEntry>,
}

impl View for FrameOffsets {
    type V = FrameOffsetsView;

    open spec fn view(&self) -> FrameOffsetsView {
        FrameOffsetsView { video_url: self.video_url@, frames: self.frames@ }
    }
}

// ---------------------------------------------------------------------------
// From packets to entries
// ---------------------------------------------------------------------------
/// A packet counts as a frame: it belongs to the video stream and its
/// position is known.
pub open spec fn counts(packet: PacketInfo, stream: usize) -> bool {
    packet.stream == stream && packet.position >= 0
}

/// The offset of the last keyframe among the packets that count; zero before
/// the first one.
pub open spec fn irap_after(packets: Seq<PacketInfo>, stream: usize) -> u64
    decreases packets.len(),
{
    if packets.len() == 0 {
        0
    } else if counts(packets.last(), stream) && packets.last().is_key {
        packets.last().position as u64
    } else {
        irap_after(packets.drop_last(), stream)
    }
}

/// The entries of the packets that count, in order: each with its own offset
/// and the offset of the last keyframe up to and including it.
pub open spec fn entries_of(packets: Seq<PacketInfo>, stream: usize) -> Seq<FrameEntry>
    decreases packets.len(),
{
    if packets.len() == 0 {
        Seq::<FrameEntry>::empty()
    } else if counts(packets.last(), stream) {
        entries_of(packets.drop_last(), stream).push(
            FrameEntry {
                offset: packets.last().position as u64,
                irap_offset: irap_after(packets, stream),
            },
        )
    } else {
        entries_of(packets.drop_last(), stream)
    }
}

/// At a keyframe the keyframe offset is the frame's own offset, and no entry
/// names a keyframe that lies behind it in the file order of the packets
/// seen: the keyframe offset is zero or the offset of an earlier entry.
pub proof fn lemma_keyframe_entries(packets: Seq<PacketInfo>, stream: usize)
    ensures
        forall|i: int|
            0 <= i < entries_of(packets, stream).len() ==> {
                let entry = #[trigger] entries_of(packets, stream)[i];
                entry.irap_offset == 0 || exists|j: int|
                    0 <= j <= i && entries_of(packets, stream)[j].offset == entry.irap_offset
            },
        packets.len() > 0 && counts(packets.last(), stream) && packets.last().is_key
            ==> entries_of(packets, stream).last().irap_offset == entries_of(
            packets,
            stream,
        ).last().offset,
        irap_after(packets, stream) == 0 || exists|j: int|
            0 <= j < entries_of(packets, stream).len() && entries_of(packets, stream)[j].offset
                == irap_after(packets, stream),
    decreases packets.len(),
{
    if packets.len() > 0 {
        let front = packets.drop_last();
        lemma_keyframe_entries(front, stream);
        let before = entries_of(front, stream);
        let all = entries_of(packets, stream);
        if counts(packets.last(), stream) {
            let last = all.len() - 1;
            assert(all.drop_last() =~= before);
            assert forall|i: int| 0 <= i < all.len() implies {
                let entry = #[trigger] all[i];
                entry.irap_offset == 0 || exists|j: int|
                    0 <= j <= i && all[j].offset == entry.irap_offset
            } by {
                if i < last {
                    assert(all[i] == before[i]);
                    if before[i].irap_offset != 0 {
                        let j = choose|j: int|
                            0 <= j <= i && before[j].offset == before[i].irap_offset;
                        assert(all[j] == before[j]);
                    }
                } else {
                    if packets.last().is_key {
                        assert(all[last].offset == all[last].irap_offset);
                    } else if irap_after(front, stream) != 0 {
                        let j = choose|j: int|
                            0 <= j < before.len() && before[j].offset == irap_after(front, stream);
                        assert(all[j] == before[j]);
                    }
                }
            }
            if irap_after(packets, stream) != 0 {
                if packets.last().is_key {
                    assert(all[last].offset == irap_after(packets, stream));
                } else {
                    let j = choose|j: int|
                        0 <= j < before.len() && before[j].offset == irap_after(front, stream);
                    assert(all[j] == before[j]);
                }
            }
        }
    }
}

/// Builds the entries of a video from its packets: packets of other streams
/// and packets without a known position are left out.
pub fn frame_entries(packets: &Vec<PacketInfo>, stream_index: usize) -> (entries: Vec<FrameEntry>)
    ensures
        entries@ == entries_of(packets@, stream_index),
{
    let mut entries: Vec<FrameEntry> = Vec::new();
    let mut current_irap_offset: u64 = 0;
    let mut i: usize = 0;
    while i < packets.len()
        invariant
            0 <= i <= packets.len(),
            entries@ == entries_of(packets@.subrange(0, i as int), stream_index),
            current_irap_offset == irap_after(packets@.subrange(0, i as int), stream_index),
        decreases packets.len() - i,
    {
        proof {
            assert(packets@.subrange(0, i as int + 1).drop_last() =~= packets@.subrange(
                0,
                i as int,
            ));
        }
        let packet = packets[i];
        if packet.stream == stream_index && packet.position >= 0 {
            let offset: u64 = packet.position as u64;
            if packet.is_key {
                current_irap_offset = offset;
            }
            entries.push(FrameEntry { offset, irap_offset: current_irap_offset });
        }
        i = i + 1;
    }
    proof {
        assert(packets@.subrange(0, i as int) =~= packets@);
    }
    entries
}

// ---------------------------------------------------------------------------
// Writing
// ---------------------------------------------------------------------------
/// The text of one entry, indented as an element of the `frames` array.
pub open spec fn entry_text(entry: FrameEntry) -> Seq<char> {
    "{\n      \"offset\": "@ + decimal(entry.offset as nat) + ",\n      \"irap_offset\": "@
        + decimal(entry.irap_offset as nat) + "\n    }"@
}

/// The texts of entries, separated by a comma and a line break.
pub open spec fn entries_text(entries: Seq<FrameEntry>) -> Seq<char>
    decreases entries.len(),
{
    if entries.len() == 0 {
        Seq::<char>::empty()
    } else if entries.len() == 1 {
        entry_text(entries[0])
    } else {
        entries_text(entries.drop_last()) + ",\n    "@ + entry_text(entries.last())
    }
}

impl FrameOffsetsView {
    /// The sidecar as indented JSON text: an object with the members
    /// `video_url` and `frames`, in this order.
    pub open spec fn text(self) -> Seq<char> {
        "{\n  \"video_url\": "@ + json_quote(self.video_url) + ",\n  \"frames\": "@ + (
        if self.frames.len() == 0 {
            "[]"@
        } else {
            "[\n    "@ + entries_text(self.frames) + "\n  ]"@
        }) + "\n}"@
    }
}

/// Appends the text of one entry.
fn push_entry(out: &mut String, entry: &FrameEntry)
    ensures
        final(out)@ == old(out)@ + entry_text(*entry),
{
    out.append("{\n      \"offset\": ");
    push_decimal(out, entry.offset);
    out.append(",\n      \"irap_offset\": ");
    push_decimal(out, entry.irap_offset);
    out.append("\n    }");
    proof {
        assert(final(out)@ =~= old(out)@ + entry_text(*entry));
    }
}

impl FrameOffsets {
    /// Writes the sidecar as indented JSON text.
    pub fn to_json_pretty(&self) -> (text: String)
        ensures
            text@ == self@.text(),
    {
        let mut out = "{\n  \"video_url\": ".to_string();
        push_quoted(&mut out, self.video_url.as_str());
        out.append(",\n  \"frames\": ");
        let ghost head = out@;
        if self.frames.len() == 0 {
            out.append("[]");
        } else {
            out.append("[\n    ");
            let ghost open = out@;
            let mut i: usize = 0;
            while i < self.frames.len()
                invariant
                    0 <= i <= self.frames.len(),
                    out@ == open + entries_text(self.frames@.subrange(0, i as int)),
                decreases self.frames.len() - i,
            {
                let ghost before = self.frames@.subrange(0, i as int);
                let ghost after = self.frames@.subrange(0, i as int + 1);
                proof {
                    assert(after.drop_last() =~= before);
                    assert(after.last() == self.frames@[i as int]);
                }
                if i > 0 {
                    out.append(",\n    ");
                }
                push_entry(&mut out, &self.frames[i]);
                proof {
                    assert(out@ =~= open + entries_text(after));
                }
                i = i + 1;
            }
            proof {
                assert(self.frames@.subrange(0, i as int) =~= self.frames@);
            }
            out.append("\n  ]");
            proof {
                assert(out@ =~= head + ("[\n    "@ + entries_text(self.frames@) + "\n  ]"@));
            }
        }
        out.append("\n}");
        proof {
            assert(out@ =~= self@.text());
        }
        out
    }
}

// ---------------------------------------------------------------------------
// Reading
// ---------------------------------------------------------------------------
/// One entry read from a document: an object with the members `offset` and
/// `irap_offset`.
pub open spec fn decode_entry(doc: JsonModel) -> Result<FrameEntry, ProtocolErrorView> {
    if !(doc is Object) {
        Err(ProtocolErrorView::NotAnObject)
    } else {
        match unsigned_member(doc, Field::Offset, u64::MAX) {
            Err(error) => Err(error),
            Ok(offset) => match unsigned_member(doc, Field::IrapOffset, u64::MAX) {
                Err(error) => Err(error),
                Ok(irap_offset) => Ok(FrameEntry { offset, irap_offset }),
            },
        }
    }
}

/// The entries read from the elements of an array, in order; the error of
/// the first element that is no entry.
pub open spec fn decode_entries(items: Seq<JsonModel>) -> Result<Seq<FrameEntry>, ProtocolErrorView>
    decreases items.len(),
{
    if items.len() == 0 {
        Ok(Seq::<FrameEntry>::empty())
    } else {
        match decode_entries(items.drop_last()) {
            Err(error) => Err(error),
            Ok(front) => match decode_entry(items.last()) {
                Err(error) => Err(error),
                Ok(entry) => Ok(front.push(entry)),
            },
        }
    }
}

/// The sidecar a document holds.
pub open spec fn decode_offsets(doc: JsonModel) -> Result<FrameOffsetsView, ProtocolErrorView> {
    if !(doc is Object) {
        Err(ProtocolErrorView::NotAnObject)
    } else {
        match text_member(doc, Field::VideoUrl) {
            Err(error) => Err(error),
            Ok(video_url) => match array_member(doc, Field::Frames) {
                Err(error) => Err(error),
                Ok(items) => match decode_entries(items) {
                    Err(error) => Err(error),
                    Ok(frames) => Ok(FrameOffsetsView { video_url, frames }),
                },
            },
        }
    }
}

/// What a sidecar text means.
pub open spec fn read_offsets(text: Seq<char>) -> Result<FrameOffsetsView, ProtocolErrorView> {
    match json_parse(text) {
        Err(message) => Err(ProtocolErrorView::Syntax(message)),
        Ok(doc) => decode_offsets(doc),
    }
}

/// Once a prefix of the elements fails to decode, the whole array fails with
/// the same error.
pub proof fn lemma_decode_entries_prefix_error(items: Seq<JsonModel>, n: int)
    requires
        0 <= n <= items.len(),
        decode_entries(items.subrange(0, n)) is Err,
    ensures
        decode_entries(items) == decode_entries(items.subrange(0, n)),
    decreases items.len() - n,
{
    if n == items.len() {
        assert(items.subrange(0, n) =~= items);
    } else {
        assert(items.subrange(0, n + 1).drop_last() =~= items.subrange(0, n));
        lemma_decode_entries_prefix_error(items, n + 1);
    }
}

impl FrameEntry {
    /// Reads one entry from a document.
    pub fn from_value(doc: &JsonValue) -> (outcome: Result<FrameEntry, ProtocolError>)
        ensures
            match outcome {
                Ok(entry) => decode_entry(doc@) == Ok::<FrameEntry, ProtocolErrorView>(entry),
                Err(error) => decode_entry(doc@) == Err::<FrameEntry, ProtocolErrorView>(error@),
            },
    {
        if !is_object(doc) {
            return Err(ProtocolError::NotAnObject);
        }
        let offset = match get_unsigned(doc, Field::Offset, u64::MAX) {
            Ok(number) => number,
            Err(error) => {
                return Err(error);
            },
        };
        match get_unsigned(doc, Field::IrapOffset, u64::MAX) {
            Ok(irap_offset) => Ok(FrameEntry { offset, irap_offset }),
            Err(error) => Err(error),
        }
    }
}

impl FrameOffsets {
    /// Reads the sidecar that a document holds.
    pub fn from_value(doc: &JsonValue) -> (outcome: Result<FrameOffsets, ProtocolError>)
        ensures
            outcome_view(outcome) == decode_offsets(doc@),
    {
        if !is_object(doc) {
            return Err(ProtocolError::NotAnObject);
        }
        let video_url = match get_text(doc, Field::VideoUrl) {
            Ok(text) => text,
            Err(error) => {
                return Err(error);
            },
        };
        let items = match doc.member(Field::Frames.name()) {
            None => {
                return Err(ProtocolError::MissingField(Field::Frames));
            },
            Some(value) => match value.as_array() {
                None => {
                    return Err(ProtocolError::InvalidField(Field::Frames));
                },
                Some(items) => {
                    proof {
                        assert(item_models(items@) =~= value@.as_array()->Some_0);
                    }
                    items
                },
            },
        };
        let ghost models = item_models(items@);
        let mut frames: Vec<FrameEntry> = Vec::new();
        let mut i: usize = 0;
        while i < items.len()
            invariant
                0 <= i <= items.len(),
                models == item_models(items@),
                doc@ is Object,
                text_member(doc@, Field::VideoUrl) == Ok::<Seq<char>, ProtocolErrorView>(
                    video_url@,
                ),
                array_member(doc@, Field::Frames) == Ok::<Seq<JsonModel>, ProtocolErrorView>(
                    models,
                ),
                decode_entries(models.subrange(0, i as int)) == Ok::<
                    Seq<FrameEntry>,
                    ProtocolErrorView,
                >(frames@),
            decreases items.len() - i,
        {
            let ghost next = models.subrange(0, i as int + 1);
            proof {
                assert(next.drop_last() =~= models.subrange(0, i as int));
                assert(next.last() == items@[i as int]@);
            }
            match FrameEntry::from_value(&items[i]) {
                Ok(entry) => {
                    frames.push(entry);
                },
                Err(error) => {
                    proof {
                        lemma_decode_entries_prefix_error(models, i as int + 1);
                    }
                    return Err(error);
                },
            }
            i = i + 1;
        }
        proof {
            assert(models.subrange(0, i as int) =~= models);
        }
        Ok(FrameOffsets { video_url, frames })
    }

    /// Reads a sidecar from JSON text.
    pub fn from_json(json: &str) -> (outcome: Result<FrameOffsets, ProtocolError>)
        ensures
            outcome_view(outcome) == read_offsets(json@),
    {
        match JsonValue::parse(json) {
            Err(message) => Err(ProtocolError::Syntax(message)),
            Ok(doc) => FrameOffsets::from_value(&doc),
        }
    }
}

// ---------------------------------------------------------------------------
// From entries to requests
// ---------------------------------------------------------------------------
/// The request for the entry at position `i`: the entry's offsets, and `i`
/// as the index.
pub open spec fn request_of(entry: FrameEntry, i: int) -> FrameRequest {
    FrameRequest { offset: entry.offset, irap_offset: entry.irap_offset, index: i as u32 }
}

/// One request per entry, in order, each indexed by its position.
pub fn frame_requests(entries: &Vec<FrameEntry>) -> (requests: Vec<FrameRequest>)
    ensures
        requests@.len() == entries@.len(),
        forall|i: int| 0 <= i < entries@.len() ==> #[trigger] requests@[i] == request_of(entries@[i], i),
{
    let mut requests: Vec<FrameRequest> = Vec::new();
    let mut i: usize = 0;
    while i < entries.len()
        invariant
            0 <= i <= entries.len(),
            requests@.len() == i,
            forall|j: int| 0 <= j < i ==> #[trigger] requests@[j] == request_of(entries@[j], j),
        decreases entries.len() - i,
    {
        let entry = entries[i];
        let index: u32 = #[verifier::truncate]
        (i as u32);
        requests.push(
            FrameRequest { offset: entry.offset, irap_offset: entry.irap_offset, index },
        );
        i = i + 1;
    }
    requests
}

/// The number of batches that `len` requests make when each batch holds at
/// most `batch` of them.
pub open spec fn batch_count(len: int, batch: int) -> int {
    (len + batch - 1) / batch
}

/// The requests of batch `k`: at most `batch` of them, starting behind the
/// batches before.
pub open spec fn batch_at(requests: Seq<FrameRequest>, batch: int, k: int) -> Seq<FrameRequest> {
    requests.subrange(
        k * batch,
        if k * batch + batch <= requests.len() {
            k * batch + batch
        } else {
            requests.len() as int
        },
    )
}

/// Splits requests into batches of `batch` requests; the last batch holds
/// what is left. The batches, one after the other, are the requests in
/// their order.
pub fn split_batches(requests: &Vec<FrameRequest>, batch: u32) -> (batches: Vec<Vec<FrameRequest>>)
    requires
        batch > 0,
    ensures
        batches@.len() == batch_count(requests@.len() as int, batch as int),
        forall|k: int|
            0 <= k < batches@.len() ==> (#[trigger] batches@[k])@ == batch_at(
                requests@,
                batch as int,
                k,
            ),
        forall|k: int| 0 <= k < batches@.len() ==> 0 < (#[trigger] batches@[k])@.len() <= batch,
{
    let len: usize = requests.len();
    let mut batches: Vec<Vec<FrameRequest>> = Vec::new();
    let mut start: usize = 0;
    proof {
        assert(0 == 0 * batch) by (nonlinear_arith);
        assert(batch_count(0, batch as int) == 0) by (nonlinear_arith)
            requires
                batch > 0,
        ;
    }
    while start < len
        invariant
            0 <= start <= len,
            len == requests@.len(),
            batch > 0,
            start < len ==> start == batches@.len() * batch,
            start == len ==> batches@.len() == batch_count(len as int, batch as int),
            forall|k: int|
                0 <= k < batches@.len() ==> (#[trigger] batches@[k])@ == batch_at(
                    requests@,
                    batch as int,
                    k,
                ),
            forall|k: int| 0 <= k < batches@.len() ==> 0 < (#[trigger] batches@[k])@.len() <= batch,
        decreases len - start,
    {
        let room: usize = len - start;
        let size: usize = if batch as u64 <= room as u64 {
            batch as usize
        } else {
            room
        };
        let mut one: Vec<FrameRequest> = Vec::new();
        let mut j: usize = 0;
        while j < size
            invariant
                0 <= j <= size,
                start + size <= len,
                len == requests@.len(),
                one@ == requests@.subrange(start as int, start + j),
            decreases size - j,
        {
            one.push(requests[start + j]);
            proof {
                assert(one@ =~= requests@.subrange(start as int, start + j + 1));
            }
            j = j + 1;
        }
        let ghost k = batches@.len() as int;
        let ghost before = batches@;
        proof {
            assert(k * batch + batch == (k + 1) * batch) by (nonlinear_arith);
            assert(one@ == batch_at(requests@, batch as int, k));
        }
        batches.push(one);
        proof {
            assert forall|m: int| 0 <= m < batches@.len() implies (#[trigger] batches@[m])@
                == batch_at(requests@, batch as int, m) by {
                if m < k {
                    assert(batches@[m] == before[m]);
                }
            }
            assert forall|m: int| 0 <= m < batches@.len() implies 0 < (#[trigger] batches@[m])@.len()
                <= batch by {
                if m < k {
                    assert(batches@[m] == before[m]);
                }
            }
            if start + size == len {
                lemma_batch_count(len as int, batch as int, k + 1, start as int);
            }
        }
        start = start + size;
    }
    batches
}

/// With `k - 1` full batches before the last one, which starts at `begin`
/// and is not empty, there are `k` batches.
pub proof fn lemma_batch_count(len: int, batch: int, k: int, begin: int)
    requires
        batch > 0,
        k >= 1,
        begin == (k - 1) * batch,
        begin < len <= begin + batch,
    ensures
        batch_count(len, batch) == k,
{
    assert((len + batch - 1) / batch == k) by (nonlinear_arith)
        requires
            batch > 0,
            k >= 1,
            (k - 1) * batch < len <= (k - 1) * batch + batch,
    ;
}

} // verus!
