//! The sound of a recording.
use vstd::prelude::*;

use crate::config::RecordAudioSource;

verus! {

/// How many bytes of sound are handled at a time: ten milliseconds of 48,000 samples a second in
/// two channels of two bytes.
pub const CHUNK_BYTES: usize = 1920;

/// Which sounds are recorded: that of the system and that of the microphone.
pub fn sources(source: RecordAudioSource) -> (r: (bool, bool))
    ensures
        r.0 == (source != RecordAudioSource::Mic),
        r.1 == (source != RecordAudioSource::System),
{
    match source {
        RecordAudioSource::System => (true, false),
        RecordAudioSource::Mic => (false, true),
        RecordAudioSource::SystemAndMic => (true, true),
    }
}

/// The sample in two bytes, the lower first.
pub open spec fn sample_of(low: u8, high: u8) -> int {
    let value = low + 256 * high;
    if value < 32768 {
        value
    } else {
        value - 65536
    }
}

/// The sample at a place: silence where there is none.
pub open spec fn heard_at(chunk: Option<Seq<u8>>, offset: int) -> int {
    match chunk {
        Some(bytes) if 0 <= offset && offset + 2 <= bytes.len() => sample_of(
            bytes[offset],
            bytes[offset + 1],
        ),
        _ => 0,
    }
}

/// The sample at a place: silence where there is none.
pub fn sample_at(chunk: Option<&[u8]>, offset: usize) -> (r: i16)
    ensures
        r == heard_at(
            match chunk {
                Some(bytes) => Some(bytes@),
                None => None,
            },
            offset as int,
        ),
{
    match chunk {
        Some(bytes) => {
            if bytes.len() < 2 || offset > bytes.len() - 2 {
                return 0;
            }
            let value: i32 = bytes[offset] as i32 + 256 * bytes[offset + 1] as i32;
            if value < 32768 {
                value as i16
            } else {
                (value - 65536) as i16
            }
        },
        None => 0,
    }
}

/// Two samples together, as loud as a sample can be at most.
pub open spec fn together(a: int, b: int) -> int {
    if a + b > i16::MAX {
        i16::MAX as int
    } else if a + b < i16::MIN {
        i16::MIN as int
    } else {
        a + b
    }
}

/// The lower and the higher byte of a sample.
pub open spec fn bytes_of(sample: int) -> (u8, u8) {
    let value = if sample < 0 {
        sample + 65536
    } else {
        sample
    };
    ((value % 256) as u8, (value / 256) as u8)
}

/// A byte of two sounds put together.
pub open spec fn mixed_byte(system: Option<Seq<u8>>, microphone: Option<Seq<u8>>, i: int) -> u8 {
    let offset = i - i % 2;
    let bytes = bytes_of(together(heard_at(system, offset), heard_at(microphone, offset)));
    if i % 2 == 0 {
        bytes.0
    } else {
        bytes.1
    }
}

/// Two sounds put together, where there is any.
pub fn mix(system: Option<&[u8]>, microphone: Option<&[u8]>) -> (r: Option<Vec<u8>>)
    ensures
        ({
            let first = match system {
                Some(bytes) => Some(bytes@),
                None => None,
            };
            let second = match microphone {
                Some(bytes) => Some(bytes@),
                None => None,
            };
            if first is None && second is None {
                r is None
            } else {
                r matches Some(mixed) && mixed@ == Seq::new(
                    CHUNK_BYTES as nat,
                    |i: int| mixed_byte(first, second, i),
                )
            }
        }),
{
    let ghost first = match system {
        Some(bytes) => Some(bytes@),
        None => None,
    };
    let ghost second = match microphone {
        Some(bytes) => Some(bytes@),
        None => None,
    };
    if system.is_none() && microphone.is_none() {
        return None;
    }
    let mut mixed: Vec<u8> = Vec::new();
    let mut offset: usize = 0;
    while offset < CHUNK_BYTES
        invariant
            first == (match system {
                Some(bytes) => Some(bytes@),
                None => None,
            }),
            second == (match microphone {
                Some(bytes) => Some(bytes@),
                None => None,
            }),
            offset <= CHUNK_BYTES,
            offset % 2 == 0,
            mixed@.len() == offset,
            forall|i: int| 0 <= i < offset ==> #[trigger] mixed@[i] == mixed_byte(first, second, i),
        decreases CHUNK_BYTES - offset,
    {
        let a: i32 = sample_at(system, offset) as i32;
        let b: i32 = sample_at(microphone, offset) as i32;
        let mut sum: i32 = a + b;
        if sum > 32767 {
            sum = 32767;
        } else if sum < -32768 {
            sum = -32768;
        }
        let value: u32 = if sum < 0 {
            (sum + 65536) as u32
        } else {
            sum as u32
        };
        mixed.push((value % 256) as u8);
        mixed.push((value / 256) as u8);
        offset = offset + 2;
    }
    proof {
        assert(mixed@ =~= Seq::new(CHUNK_BYTES as nat, |i: int| mixed_byte(first, second, i)));
    }
    Some(mixed)
}

/// It makes no difference which sound is named first.
pub proof fn lemma_mix_swaps(a: Option<Seq<u8>>, b: Option<Seq<u8>>, i: int)
    ensures
        mixed_byte(a, b, i) == mixed_byte(b, a, i),
{
}

/// A sound put together with silence is itself.
pub proof fn lemma_silence(sound: Seq<u8>, i: int)
    requires
        sound.len() == CHUNK_BYTES,
        0 <= i < CHUNK_BYTES,
    ensures
        mixed_byte(Some(sound), None, i) == sound[i],
        mixed_byte(None, Some(sound), i) == sound[i],
{
    let offset = i - i % 2;
    let low = sound[offset];
    let high = sound[offset + 1];
    let sample = sample_of(low, high);
    assert(together(sample, 0) == sample);
    assert(bytes_of(sample) == (low, high));
}

/// The sound that is handled, `count` pieces of it.
pub open spec fn chunks_of(samples: Seq<u8>, count: nat) -> Seq<Seq<u8>> {
    Seq::new(
        count,
        |i: int| samples.subrange(i * CHUNK_BYTES as int, (i + 1) * CHUNK_BYTES as int),
    )
}

/// What runs of bytes hold.
pub open spec fn byte_views(chunks: Seq<Vec<u8>>) -> Seq<Seq<u8>> {
    Seq::new(chunks.len(), |i: int| chunks[i]@)
}

/// As many whole pieces of the sound as there are, and what is left.
pub fn take_chunks(samples: &Vec<u8>) -> (r: (Vec<Vec<u8>>, Vec<u8>))
    ensures
        byte_views(r.0@) == chunks_of(samples@, samples@.len() / CHUNK_BYTES as nat),
        r.1@ == samples@.skip(
            (samples@.len() / CHUNK_BYTES as nat) as int * CHUNK_BYTES as int,
        ),
{
    let count: usize = samples.len() / CHUNK_BYTES;
    let mut chunks: Vec<Vec<u8>> = Vec::new();
    let mut done: usize = 0;
    while done < count
        invariant
            count == samples.len() / CHUNK_BYTES,
            done <= count,
            chunks@.len() == done,
            forall|i: int|
                0 <= i < done ==> (#[trigger] chunks@[i])@ == samples@.subrange(
                    i * CHUNK_BYTES as int,
                    (i + 1) * CHUNK_BYTES as int,
                ),
        decreases count - done,
    {
        let start: usize = done * CHUNK_BYTES;
        let mut chunk: Vec<u8> = Vec::new();
        let mut i: usize = 0;
        while i < CHUNK_BYTES
            invariant
                start + CHUNK_BYTES <= samples.len(),
                i <= CHUNK_BYTES,
                chunk@ == samples@.subrange(start as int, start + i),
            decreases CHUNK_BYTES - i,
        {
            chunk.push(samples[start + i]);
            proof {
                assert(chunk@ =~= samples@.subrange(start as int, start + i + 1));
            }
            i = i + 1;
        }
        chunks.push(chunk);
        done = done + 1;
    }
    let mut rest: Vec<u8> = Vec::new();
    let from: usize = count * CHUNK_BYTES;
    let mut i: usize = from;
    while i < samples.len()
        invariant
            from <= i <= samples.len(),
            rest@ == samples@.subrange(from as int, i as int),
        decreases samples.len() - i,
    {
        rest.push(samples[i]);
        proof {
            assert(rest@ =~= samples@.subrange(from as int, i + 1));
        }
        i = i + 1;
    }
    proof {
        assert(byte_views(chunks@) =~= chunks_of(samples@, count as nat));
        assert(rest@ =~= samples@.skip(from as int));
    }
    (chunks, rest)
}

/// How a thread that took sound ended.
pub enum ThreadEnd {
    Done,
    Failed(String),
    Panicked,
}

/// The first error of a run of threads from `at` on.
pub open spec fn error_from(ends: Seq<ThreadEnd>, at: int) -> Option<Seq<char>>
    decreases ends.len() - at,
{
    if at < 0 || at >= ends.len() {
        None
    } else {
        match ends[at] {
            ThreadEnd::Done => error_from(ends, at + 1),
            ThreadEnd::Failed(error) => Some(error@),
            ThreadEnd::Panicked => Some("Windows audio thread panicked"@),
        }
    }
}

/// Whether all threads ended well.
pub fn stop(ends: &Vec<ThreadEnd>) -> (r: Result<(), String>)
    ensures
        match error_from(ends@, 0) {
            Some(text) => r matches Err(message) && message@ == text,
            None => r is Ok,
        },
{
    let mut i: usize = 0;
    while i < ends.len()
        invariant
            i <= ends.len(),
            error_from(ends@, 0) == error_from(ends@, i as int),
        decreases ends.len() - i,
    {
        match &ends[i] {
            ThreadEnd::Done => {},
            ThreadEnd::Failed(error) => {
                return Err(error.as_str().to_owned());
            },
            ThreadEnd::Panicked => {
                return Err("Windows audio thread panicked".to_owned());
            },
        }
        i = i + 1;
    }
    Ok(())
}

/// The system's sound is recorded unless only the microphone is, and the microphone unless only the
/// system is.
pub proof fn lemma_sources(source: RecordAudioSource, heard: (bool, bool))
    requires
        call_ensures(sources, (source,), heard),
    ensures
        source == RecordAudioSource::SystemAndMic <==> heard.0 && heard.1,
        source == RecordAudioSource::Mic <==> !heard.0 && heard.1,
        source == RecordAudioSource::System <==> heard.0 && !heard.1,
{
}

/// A sample is two bytes, the lower first, and is told back by them.
pub proof fn lemma_sample_bytes(low: u8, high: u8, sample: int)
    ensures
        -32768 <= sample_of(low, high) <= 32767,
        high < 128 <==> sample_of(low, high) >= 0,
        bytes_of(sample_of(low, high)) == (low, high),
        -32768 <= sample <= 32767 ==> sample_of(bytes_of(sample).0, bytes_of(sample).1) == sample,
        0 <= sample < 256 ==> bytes_of(sample) == (sample as u8, 0u8),
{
}

/// Two sounds together are their sum, held within what a sample can say.
pub proof fn lemma_together(a: int, b: int)
    ensures
        -32768 <= together(a, b) <= 32767,
        -32768 <= a + b <= 32767 ==> together(a, b) == a + b,
        a + b > 32767 ==> together(a, b) == 32767,
        a + b < -32768 ==> together(a, b) == -32768,
{
}

/// A sample of what is mixed is what both sources have there.
pub proof fn lemma_mixed_sample(
    system: Option<&[u8]>,
    microphone: Option<&[u8]>,
    mixed: Option<Vec<u8>>,
    k: int,
)
    requires
        call_ensures(mix, (system, microphone), mixed),
        0 <= k < 960,
    ensures
        mixed is None <==> system is None && microphone is None,
        mixed matches Some(bytes) ==> {
            let first = match system {
                Some(bytes) => Some(bytes@),
                None => None,
            };
            let second = match microphone {
                Some(bytes) => Some(bytes@),
                None => None,
            };
            &&& bytes@.len() == 1920
            &&& sample_of(bytes@[2 * k], bytes@[2 * k + 1]) == together(
                heard_at(first, 2 * k),
                heard_at(second, 2 * k),
            )
        },
{
    let first = match system {
        Some(bytes) => Some(bytes@),
        None => None,
    };
    let second = match microphone {
        Some(bytes) => Some(bytes@),
        None => None,
    };
    let sum = together(heard_at(first, 2 * k), heard_at(second, 2 * k));
    lemma_sample_bytes(0, 0, sum);
    lemma_together(heard_at(first, 2 * k), heard_at(second, 2 * k));
    assert((2 * k) % 2 == 0 && (2 * k + 1) % 2 == 1);
}

/// Sound is taken in whole chunks, in order, and what is left is shorter than one.
pub proof fn lemma_chunks(samples: &Vec<u8>, taken: (Vec<Vec<u8>>, Vec<u8>), i: int)
    requires
        call_ensures(take_chunks, (samples,), taken),
    ensures
        taken.1@.len() < 1920,
        1920 * taken.0@.len() + taken.1@.len() == samples@.len(),
        0 <= i < taken.0@.len() ==> taken.0@[i]@ == samples@.subrange(1920 * i, 1920 * i + 1920),
        taken.1@ == samples@.skip(1920 * taken.0@.len() as int),
{
    let views = byte_views(taken.0@);
    assert(views.len() == taken.0@.len());
    if 0 <= i < taken.0@.len() {
        assert(views[i] == taken.0@[i]@);
        assert(i * 1920 == 1920 * i && (i + 1) * 1920 == 1920 * i + 1920);
    }
}

/// What went wrong with the first thread that did not end well is told.
pub proof fn lemma_first_error(ends: Seq<ThreadEnd>, at: int)
    requires
        0 <= at <= ends.len(),
    ensures
        error_from(ends, at) is None <==> forall|i: int|
            at <= i < ends.len() ==> (#[trigger] ends[i]) is Done,
        forall|i: int|
            at <= i < ends.len() && (forall|k: int| at <= k < i ==> (#[trigger] ends[k]) is Done)
                ==> ((#[trigger] ends[i]) matches ThreadEnd::Failed(error) ==> error_from(ends, at)
                == Some(error@)),
    decreases ends.len() - at,
{
    if at < ends.len() {
        lemma_first_error(ends, at + 1);
        assert forall|i: int|
            at <= i < ends.len() && (forall|k: int| at <= k < i ==> (#[trigger] ends[k])
                is Done) implies ((#[trigger] ends[i]) matches ThreadEnd::Failed(error)
            ==> error_from(ends, at) == Some(error@)) by {
            if i > at {
                assert(ends[at] is Done);
            }
        }
    }
}

} // verus!
