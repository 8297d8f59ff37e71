//! The packets of the stream that the replay keeps.
use vstd::prelude::*;

verus! {

/// What is read of a packet.
#[derive(Clone, Copy, Debug, PartialEq, Eq, Structural)]
pub struct PacketTimes {
    pub corrupt: bool,
    /// When it is shown and when it is decoded, in the stream's own units.
    pub pts: Option<i64>,
    pub dts: Option<i64>,
    pub duration: i64,
}

impl PacketTimes {
    /// When the packet begins and ends, or why it is refused.
    pub open spec fn span(self) -> Result<(int, int), Seq<char>> {
        if self.corrupt {
            Err("corrupt input packet"@)
        } else if self.pts is None {
            Err("packet has no PTS"@)
        } else if self.dts is None {
            Err("packet has no DTS"@)
        } else if self.pts != self.dts {
            Err("probe requires a stream without frame reordering"@)
        } else if self.duration <= 0 {
            Err("probe requires positive packet durations"@)
        } else if self.pts->Some_0 + self.duration > i64::MAX {
            Err("timestamp overflow"@)
        } else {
            Ok((self.pts->Some_0 as int, self.pts->Some_0 + self.duration))
        }
    }

    /// When the packet begins and ends, in the stream's own units. A stream whose frames are not
    /// in order is refused.
    pub fn checked(self) -> (r: Result<(i64, i64), String>)
        ensures
            self.span() == (match r {
                Ok((start, end)) => Ok((start as int, end as int)),
                Err(message) => Err(message@),
            }),
            r matches Ok((start, end)) ==> start < end,
    {
        if self.corrupt {
            return Err("corrupt input packet".to_owned());
        }
        let pts: i64 = match self.pts {
            Some(pts) => pts,
            None => {
                return Err("packet has no PTS".to_owned());
            },
        };
        let dts: i64 = match self.dts {
            Some(dts) => dts,
            None => {
                return Err("packet has no DTS".to_owned());
            },
        };
        if pts != dts {
            return Err("probe requires a stream without frame reordering".to_owned());
        }
        if self.duration <= 0 {
            return Err("probe requires positive packet durations".to_owned());
        }
        match pts.checked_add(self.duration) {
            Some(end) => Ok((pts, end)),
            None => Err("timestamp overflow".to_owned()),
        }
    }
}

/// Whether a packet lasts long enough to be told by the clock, given its first and last moment in
/// microseconds.
pub fn lasting(start: i64, end: i64) -> (r: Result<(), String>)
    ensures
        if end <= start {
            r matches Err(message) && message@ == "packet duration is below clock resolution"@
        } else {
            r is Ok
        },
{
    if end <= start {
        Err("packet duration is below clock resolution".to_owned())
    } else {
        Ok(())
    }
}

/// What the parts beside a packet's data take: each its own length and `each` bytes more.
pub open spec fn side_bytes(lengths: Seq<usize>, each: int) -> int
    decreases lengths.len(),
{
    if lengths.len() == 0 {
        0
    } else {
        side_bytes(lengths.drop_last(), each) + lengths.last() + each
    }
}

/// More parts take more.
proof fn lemma_side_bytes(lengths: Seq<usize>, each: int, count: int)
    requires
        each >= 0,
        0 <= count <= lengths.len(),
    ensures
        0 <= side_bytes(lengths.take(count), each) <= side_bytes(lengths, each),
    decreases lengths.len(),
{
    if count == lengths.len() {
        assert(lengths.take(count) =~= lengths);
        if lengths.len() > 0 {
            lemma_side_bytes(lengths.drop_last(), each, lengths.len() - 1);
            assert(lengths.drop_last().take(lengths.len() - 1) =~= lengths.drop_last());
        }
    } else {
        lemma_side_bytes(lengths.drop_last(), each, count);
        assert(lengths.drop_last().take(count) =~= lengths.take(count));
    }
}

/// What a packet counts for in the memory of the replay: its data, the parts beside it with
/// `each` bytes more for each, and an allowance.
pub fn counted(data: usize, beside: &Vec<usize>, each: usize, allowance: usize) -> (r: Result<
    usize,
    String,
>)
    ensures
        ({
            let total = data + side_bytes(beside@, each as int) + allowance;
            if total <= usize::MAX {
                r matches Ok(bytes) && bytes == total
            } else {
                r matches Err(message) && message@ == "packet accounting overflow"@
            }
        }),
{
    let mut sum: usize = 0;
    let mut i: usize = 0;
    while i < beside.len()
        invariant
            i <= beside.len(),
            sum == side_bytes(beside@.take(i as int), each as int),
        decreases beside.len() - i,
    {
        proof {
            assert(beside@.take(i + 1).drop_last() =~= beside@.take(i as int));
            lemma_side_bytes(beside@, each as int, i + 1);
        }
        match sum.checked_add(beside[i]) {
            Some(partial) => match partial.checked_add(each) {
                Some(next) => {
                    sum = next;
                },
                None => {
                    return Err("packet accounting overflow".to_owned());
                },
            },
            None => {
                return Err("packet accounting overflow".to_owned());
            },
        }
        i = i + 1;
    }
    proof {
        assert(beside@.take(i as int) =~= beside@);
    }
    match data.checked_add(sum) {
        Some(partial) => match partial.checked_add(allowance) {
            Some(total) => Ok(total),
            None => Err("packet accounting overflow".to_owned()),
        },
        None => Err("packet accounting overflow".to_owned()),
    }
}

/// What a stream carries.
#[derive(Clone, Copy, Debug, PartialEq, Eq, Structural)]
pub enum Medium {
    Video,
    Audio,
    Other,
}

/// The place of the picture's stream, where there is one and at most one of sound beside it.
pub open spec fn video_place(streams: Seq<Medium>) -> Result<int, Seq<char>> {
    let refused = Err("probe requires one video and at most one audio stream"@);
    if streams.len() == 1 {
        match streams[0] {
            Medium::Video => Ok(0),
            Medium::Audio => Err("input has no video stream"@),
            Medium::Other => refused,
        }
    } else if streams.len() == 2 {
        match (streams[0], streams[1]) {
            (Medium::Video, Medium::Audio) => Ok(0),
            (Medium::Audio, Medium::Video) => Ok(1),
            (Medium::Audio, Medium::Audio) => Err("input has no video stream"@),
            _ => refused,
        }
    } else {
        refused
    }
}

/// The place of the picture's stream.
pub fn check_streams(streams: &Vec<Medium>) -> (r: Result<usize, String>)
    ensures
        video_place(streams@) == (match r {
            Ok(place) => Ok(place as int),
            Err(message) => Err(message@),
        }),
{
    if streams.len() == 0 || streams.len() > 2 {
        return Err("probe requires one video and at most one audio stream".to_owned());
    }
    let mut video: Option<usize> = None;
    let mut i: usize = 0;
    while i < streams.len()
        invariant
            1 <= streams.len() <= 2,
            i <= streams.len(),
            i == 0 ==> video is None,
            i == 1 ==> streams@[0] != Medium::Other,
            i == 1 ==> video == (if streams@[0] == Medium::Video {
                Some(0usize)
            } else {
                None
            }),
            i == 2 ==> (match (streams@[0], streams@[1]) {
                (Medium::Video, Medium::Audio) => video == Some(0usize),
                (Medium::Audio, Medium::Video) => video == Some(1usize),
                (Medium::Audio, Medium::Audio) => video is None,
                _ => false,
            }),
        decreases streams.len() - i,
    {
        match streams[i] {
            Medium::Video if video.is_none() => {
                video = Some(i);
            },
            Medium::Audio => {},
            _ => {
                return Err("probe requires one video and at most one audio stream".to_owned());
            },
        }
        i = i + 1;
    }
    match video {
        Some(place) => Ok(place),
        None => Err("input has no video stream".to_owned()),
    }
}

/// How many frames a stream shows in a second, as a fraction: on the average, where that is known.
pub fn frame_rate(average: (i32, i32), rate: (i32, i32)) -> (r: (i32, i32))
    ensures
        r == (if average.0 > 0 {
            average
        } else {
            rate
        }),
{
    if average.0 > 0 {
        average
    } else {
        rate
    }
}

/// Counts a packet that was read, whose stream has to be one of `streams`.
pub fn packet_read(read: u64, index: usize, streams: usize) -> (r: Result<u64, String>)
    ensures
        if index >= streams {
            r matches Err(message) && message@ == "packet references an unknown stream"@
        } else if read == u64::MAX {
            r matches Err(message) && message@ == "packet count overflow"@
        } else {
            r == Ok::<u64, String>((read + 1) as u64)
        },
{
    if index >= streams {
        return Err("packet references an unknown stream".to_owned());
    }
    match read.checked_add(1) {
        Some(count) => Ok(count),
        None => Err("packet count overflow".to_owned()),
    }
}

/// The longest side of a picture that the replay takes.
pub const MAX_SIDE: u32 = 16384;

/// The size of the picture, where the replay takes it.
pub fn dimensions(width: i32, height: i32) -> (r: Result<(u32, u32), String>)
    ensures
        if width < 0 {
            r matches Err(message) && message@ == "invalid video width"@
        } else if height < 0 {
            r matches Err(message) && message@ == "invalid video height"@
        } else if 0 < width <= MAX_SIDE && 0 < height <= MAX_SIDE {
            r matches Ok((w, h)) && w == width && h == height
        } else {
            r matches Err(message) && message@ == "unsupported video dimensions"@
        },
{
    if width < 0 {
        return Err("invalid video width".to_owned());
    }
    if height < 0 {
        return Err("invalid video height".to_owned());
    }
    let width: u32 = width as u32;
    let height: u32 = height as u32;
    if width == 0 || height == 0 || width > MAX_SIDE || height > MAX_SIDE {
        return Err("unsupported video dimensions".to_owned());
    }
    Ok((width, height))
}

/// A packet lasts from its moment on for its duration; it is taken only where it is whole, both its
/// moments are there and agree, and it lasts.
pub proof fn lemma_span(times: PacketTimes, r: Result<(i64, i64), String>)
    requires
        call_ensures(PacketTimes::checked, (times,), r),
    ensures
        r is Ok <==> !times.corrupt && times.pts is Some && times.pts == times.dts && times.duration
            > 0 && times.pts->Some_0 + times.duration <= i64::MAX,
        r matches Ok((start, end)) ==> times.pts == Some(start) && end - start == times.duration,
{
}

/// A span is fine where it ends behind its beginning.
pub proof fn lemma_lasting(start: i64, end: i64, r: Result<(), String>)
    requires
        call_ensures(lasting, (start, end), r),
    ensures
        r is Ok <==> start < end,
{
}

/// What a packet takes is its data, what comes beside it and what is allowed for each of these and
/// for itself: one thing more beside it takes that much more.
pub proof fn lemma_one_more_beside(lengths: Seq<usize>, more: usize, each: int)
    ensures
        side_bytes(Seq::empty(), each) == 0,
        side_bytes(lengths.push(more), each) == side_bytes(lengths, each) + more + each,
{
    assert(lengths.push(more).drop_last() =~= lengths);
}

/// A file has one picture stream, and one of sound at most, in either order.
pub proof fn lemma_streams(streams: &Vec<Medium>, place: Result<usize, String>)
    requires
        call_ensures(check_streams, (streams,), place),
    ensures
        place is Ok <==> {
            ||| streams@ =~= seq![Medium::Video]
            ||| streams@ =~= seq![Medium::Video, Medium::Audio]
            ||| streams@ =~= seq![Medium::Audio, Medium::Video]
        },
        place matches Ok(place) ==> place < streams@.len() && streams@[place as int] == Medium::Video,
{
}

/// The average rate is used where it is known, and else the other.
pub proof fn lemma_frame_rate(average: (i32, i32), rate: (i32, i32), used: (i32, i32))
    requires
        call_ensures(frame_rate, (average, rate), used),
    ensures
        average.0 > 0 ==> used == average,
        average.0 <= 0 ==> used == rate,
{
}

/// A packet is counted where it is of a stream of the file.
pub proof fn lemma_packet_read(read: u64, index: usize, streams: usize, r: Result<u64, String>)
    requires
        call_ensures(packet_read, (read, index, streams), r),
    ensures
        r is Ok <==> index < streams && read < u64::MAX,
        r matches Ok(count) ==> count == read + 1,
{
}

/// A picture has a size that is neither empty nor too large, the width before the height.
pub proof fn lemma_dimensions(width: i32, height: i32, r: Result<(u32, u32), String>)
    requires
        call_ensures(dimensions, (width, height), r),
    ensures
        r is Ok <==> 0 < width <= 16384 && 0 < height <= 16384,
        r matches Ok(size) ==> size.0 == width && size.1 == height,
{
}

/// What a packet's span is, and when there is one.
pub proof fn lemma_spans(times: PacketTimes)
    ensures
        times.span() is Ok <==> !times.corrupt && times.pts is Some && times.pts == times.dts
            && times.duration > 0 && times.pts->Some_0 + times.duration <= i64::MAX,
        times.span() matches Ok((start, end)) ==> times.pts == Some(start as i64) && start
            == times.pts->Some_0 && end - start == times.duration,
{
}

} // verus!
