//! Recorded speech as a sound file.
use vstd::prelude::*;

use crate::digest;
use crate::text;

verus! {

/// A sample as two bytes, the low one first; a negative one wraps round.
pub open spec fn sample_bytes(sample: i16) -> Seq<u8> {
    digest::le_bytes(
        (if sample < 0 {
            sample + 0x1_0000
        } else {
            sample as int
        }) as nat,
        2,
    )
}

/// Some samples as bytes, in order.
pub open spec fn sample_data(samples: Seq<i16>) -> Seq<u8>
    decreases samples.len(),
{
    if samples.len() == 0 {
        Seq::empty()
    } else {
        sample_data(samples.drop_last()) + sample_bytes(samples.last())
    }
}

/// The words of the file format: `RIFF`, `WAVE`, `fmt ` and `data`.
pub open spec fn riff_tag() -> Seq<u8> {
    seq![0x52u8, 0x49u8, 0x46u8, 0x46u8]
}

pub open spec fn wave_tag() -> Seq<u8> {
    seq![0x57u8, 0x41u8, 0x56u8, 0x45u8]
}

pub open spec fn fmt_tag() -> Seq<u8> {
    seq![0x66u8, 0x6du8, 0x74u8, 0x20u8]
}

pub open spec fn data_tag() -> Seq<u8> {
    seq![0x64u8, 0x61u8, 0x74u8, 0x61u8]
}

/// What stands before the samples: one channel of plain numbers, two bytes a
/// sample.
pub open spec fn wav_header(count: nat, sample_rate: u32) -> Seq<u8> {
    riff_tag() + digest::le_bytes(36 + 2 * count, 4) + wave_tag() + fmt_tag() + digest::le_bytes(
        16,
        4,
    ) + digest::le_bytes(1, 2) + digest::le_bytes(1, 2) + digest::le_bytes(sample_rate as nat, 4)
        + digest::le_bytes(2 * sample_rate as nat, 4) + digest::le_bytes(2, 2) + digest::le_bytes(
        16,
        2,
    ) + data_tag() + digest::le_bytes(2 * count, 4)
}

/// A sound file of one channel.
pub open spec fn wav_file(samples: Seq<i16>, sample_rate: u32) -> Seq<u8> {
    wav_header(samples.len(), sample_rate) + sample_data(samples)
}

/// The memory that a sound file is written into.
#[verifier::external_body]
struct WavBuffer {
    cursor: std::io::Cursor<Vec<u8>>,
}

/// A sound file that is being written: a `hound::WavWriter` over a buffer.
#[verifier::external_body]
struct WavSink<'a> {
    writer: hound::WavWriter<&'a mut std::io::Cursor<Vec<u8>>>,
}

/// What a buffer holds.
pub uninterp spec fn buffer_bytes(buffer: WavBuffer) -> Seq<u8>;

/// The samples that a file has got so far.
pub uninterp spec fn sink_samples(sink: WavSink<'_>) -> Seq<i16>;

/// The rate that a file was opened with.
pub uninterp spec fn sink_rate(sink: WavSink<'_>) -> u32;

/// What the buffer behind a file holds once the file is no longer written to.
pub uninterp spec fn sink_end(sink: WavSink<'_>) -> Seq<u8>;

/// How a file holds its samples.
#[derive(Clone, Copy, PartialEq, Eq, Structural)]
enum SampleKind {
    Int,
    Float,
}

/// `std::io::Cursor::new` over an empty vector: an empty buffer.
#[verifier::external_body]
fn new_buffer() -> (res: WavBuffer)
    ensures
        buffer_bytes(res) == Seq::<u8>::empty(),
{
    WavBuffer { cursor: std::io::Cursor::new(Vec::new()) }
}

/// `std::io::Cursor::into_inner`: the bytes of a buffer.
#[verifier::external_body]
fn into_bytes(buffer: WavBuffer) -> (res: Vec<u8>)
    ensures
        res@ == buffer_bytes(buffer),
{
    buffer.cursor.into_inner()
}

/// `hound::WavWriter::new` over a buffer in memory. It writes a header, for
/// which it multiplies and divides by the rate: `requires` leaves out the rates
/// where that overflows or divides by zero. It refuses other widths than 8, 16,
/// 24 and 32 bits; memory takes the header. The file has no samples yet, and
/// what it comes to in the end is what the buffer holds then.
#[verifier::external_body]
fn open_wav<'a>(
    buffer: &'a mut WavBuffer,
    channels: u16,
    sample_rate: u32,
    bits_per_sample: u16,
    kind: SampleKind,
) -> (res: Result<WavSink<'a>, String>)
    requires
        buffer_bytes(*old(buffer)) == Seq::<u8>::empty(),
        channels == 1,
        bits_per_sample == 16,
        kind == SampleKind::Int,
        0 < sample_rate,
        2 * sample_rate <= u32::MAX,
    ensures
        res is Ok,
        match res {
            Ok(sink) => {
                &&& sink_samples(sink) == Seq::<i16>::empty()
                &&& sink_rate(sink) == sample_rate
                &&& buffer_bytes(*final(buffer)) == sink_end(sink)
            },
            Err(_) => false,
        },
{
    let sample_format = match kind {
        SampleKind::Int => hound::SampleFormat::Int,
        SampleKind::Float => hound::SampleFormat::Float,
    };
    let spec = hound::WavSpec { channels, sample_rate, bits_per_sample, sample_format };
    match hound::WavWriter::new(&mut buffer.cursor, spec) {
        Ok(writer) => Ok(WavSink { writer }),
        Err(error) => Err(error.to_string()),
    }
}

/// `hound::WavWriter::write_sample` at `i16`: appends a sample, which fits into
/// the 16 bits of the file. The writer counts bytes in 32 bits: `requires`
/// leaves out the sample behind which the length of the file does not fit.
#[verifier::external_body]
fn put_sample(sink: &mut WavSink<'_>, sample: i16) -> (res: Result<(), String>)
    requires
        36 + 2 * (sink_samples(*old(sink)).len() + 1) <= u32::MAX,
    ensures
        res is Ok,
        sink_samples(*final(sink)) == sink_samples(*old(sink)).push(sample),
        sink_rate(*final(sink)) == sink_rate(*old(sink)),
        sink_end(*final(sink)) == sink_end(*old(sink)),
{
    sink.writer.write_sample(sample).map_err(|error| error.to_string())
}

/// `hound::WavWriter::finalize`: enters the lengths into the header. With one
/// channel no sample is unfinished, and memory can be sought in. The buffer
/// then holds the whole file.
#[verifier::external_body]
fn close_wav(sink: WavSink<'_>) -> (res: Result<(), String>)
    ensures
        res is Ok,
        match res {
            Ok(_) => sink_end(sink) == wav_file(sink_samples(sink), sink_rate(sink)),
            Err(_) => false,
        },
{
    sink.writer.finalize().map_err(|error| error.to_string())
}

fn explained(what: &str, error: &str) -> (res: String)
    ensures
        res@ == what@ + error@,
{
    let mut message = what.to_owned();
    text::append_text(&mut message, error);
    message
}

/// Recorded speech as a sound file.
pub fn pcm_to_wav(samples: &Vec<i16>, sample_rate: u32) -> (res: Result<Vec<u8>, String>)
    requires
        0 < sample_rate,
        2 * sample_rate <= u32::MAX,
        36 + 2 * samples@.len() <= u32::MAX,
    ensures
        res is Ok,
        res->Ok_0@ == wav_file(samples@, sample_rate),
{
    let mut buffer = new_buffer();
    let mut sink = match open_wav(&mut buffer, 1, sample_rate, 16, SampleKind::Int) {
        Ok(sink) => sink,
        Err(error) => {
            return Err(explained("WavWriter init error: ", error.as_str()));
        },
    };
    let ghost end = sink_end(sink);
    let mut i: usize = 0;
    while i < samples.len()
        invariant
            i <= samples@.len(),
            36 + 2 * samples@.len() <= u32::MAX,
            sink_samples(sink) == samples@.take(i as int),
            sink_rate(sink) == sample_rate,
            sink_end(sink) == end,
        decreases samples@.len() - i,
    {
        if let Err(error) = put_sample(&mut sink, samples[i]) {
            return Err(explained("WavWriter write error: ", error.as_str()));
        }
        i += 1;
        assert(samples@.take(i as int) == samples@.take(i - 1).push(samples@[i - 1]));
    }
    assert(samples@.take(i as int) == samples@);
    if let Err(error) = close_wav(sink) {
        return Err(explained("WavWriter finalize error: ", error.as_str()));
    }
    Ok(into_bytes(buffer))
}

proof fn lemma_width(n: nat, width: nat)
    ensures
        digest::le_bytes(n, width).len() == width,
    decreases width,
{
    if width > 0 {
        lemma_width(n / 256, (width - 1) as nat);
    }
}

proof fn lemma_data(samples: Seq<i16>, i: int)
    ensures
        sample_data(samples).len() == 2 * samples.len(),
        0 <= i < samples.len() ==> sample_data(samples).subrange(2 * i, 2 * i + 2) == sample_bytes(
            samples[i],
        ),
    decreases samples.len(),
{
    if samples.len() > 0 {
        let rest = samples.drop_last();
        lemma_data(rest, i);
        let last = sample_bytes(samples.last());
        lemma_width(
            (if samples.last() < 0 {
                samples.last() + 0x1_0000
            } else {
                samples.last() as int
            }) as nat,
            2,
        );
        if i == samples.len() - 1 {
            assert(sample_data(samples).subrange(2 * i, 2 * i + 2) == last);
        } else if 0 <= i < rest.len() {
            assert(sample_data(samples).subrange(2 * i, 2 * i + 2) == sample_data(rest).subrange(
                2 * i,
                2 * i + 2,
            ));
        }
    }
}

/// A sound file holds every sample in its place, behind a header of fixed size:
/// files of different speech differ.
pub proof fn law_sound_files_hold_every_sample(samples: Seq<i16>, sample_rate: u32, i: int)
    requires
        0 <= i < samples.len(),
    ensures
        wav_file(samples, sample_rate).len() == 44 + 2 * samples.len(),
        wav_file(samples, sample_rate).subrange(44 + 2 * i, 46 + 2 * i) == sample_bytes(samples[i]),
{
    let count = samples.len();
    lemma_width(36 + 2 * count, 4);
    lemma_width(16, 4);
    lemma_width(1, 2);
    lemma_width(sample_rate as nat, 4);
    lemma_width(2 * sample_rate as nat, 4);
    lemma_width(2, 2);
    lemma_width(16, 2);
    lemma_width(2 * count, 4);
    lemma_data(samples, i);
    assert(wav_header(count, sample_rate).len() == 44);
    assert(wav_file(samples, sample_rate).subrange(44 + 2 * i, 46 + 2 * i) == sample_data(
        samples,
    ).subrange(2 * i, 2 * i + 2));
}

/// A sample is written with two bytes, the lower one first, and a negative one
/// as it stands in memory.
pub proof fn law_samples_have_two_bytes(sample: i16)
    ensures
        sample_bytes(sample).len() == 2,
        sample >= 0 ==> sample_bytes(sample)[0] + 256 * sample_bytes(sample)[1] == sample,
        sample < 0 ==> sample_bytes(sample)[0] + 256 * sample_bytes(sample)[1] == sample + 65536,
{
    let n = (if sample < 0 {
        sample + 0x1_0000
    } else {
        sample as int
    }) as nat;
    digest::law_bytes_are_read_back(n, 2);
    let bytes = sample_bytes(sample);
    reveal_with_fuel(digest::byte_range, 3);
    reveal_with_fuel(digest::le_value, 3);
    assert(bytes.drop_first()[0] == bytes[1]);
    assert(bytes.drop_first().drop_first().len() == 0);
}

/// The header of a sound file says what follows: one channel of sixteen bits
/// without compression, at the given rate, and so many bytes.
pub proof fn law_headers_say_what_follows(samples: Seq<i16>, sample_rate: u32)
    ensures
        ({
            let file = wav_file(samples, sample_rate);
            let count = samples.len();
            &&& file.take(4) == seq![0x52u8, 0x49u8, 0x46u8, 0x46u8]
            &&& file.subrange(4, 8) == digest::le_bytes(36 + 2 * count, 4)
            &&& file.subrange(8, 12) == seq![0x57u8, 0x41u8, 0x56u8, 0x45u8]
            &&& file.subrange(12, 16) == seq![0x66u8, 0x6du8, 0x74u8, 0x20u8]
            &&& file.subrange(16, 20) == digest::le_bytes(16, 4)
            &&& file.subrange(20, 22) == digest::le_bytes(1, 2)
            &&& file.subrange(22, 24) == digest::le_bytes(1, 2)
            &&& file.subrange(24, 28) == digest::le_bytes(sample_rate as nat, 4)
            &&& file.subrange(28, 32) == digest::le_bytes(2 * sample_rate as nat, 4)
            &&& file.subrange(32, 34) == digest::le_bytes(2, 2)
            &&& file.subrange(34, 36) == digest::le_bytes(16, 2)
            &&& file.subrange(36, 40) == seq![0x64u8, 0x61u8, 0x74u8, 0x61u8]
            &&& file.subrange(40, 44) == digest::le_bytes(2 * count, 4)
        }),
{
    let count = samples.len();
    lemma_width(36 + 2 * count, 4);
    lemma_width(16, 4);
    lemma_width(1, 2);
    lemma_width(sample_rate as nat, 4);
    lemma_width(2 * sample_rate as nat, 4);
    lemma_width(2, 2);
    lemma_width(16, 2);
    lemma_width(2 * count, 4);
    let file = wav_file(samples, sample_rate);
    assert(file.take(4) == riff_tag());
    assert(file.subrange(4, 8) == digest::le_bytes(36 + 2 * count, 4));
    assert(file.subrange(8, 12) == wave_tag());
    assert(file.subrange(12, 16) == fmt_tag());
    assert(file.subrange(16, 20) == digest::le_bytes(16, 4));
    assert(file.subrange(20, 22) == digest::le_bytes(1, 2));
    assert(file.subrange(22, 24) == digest::le_bytes(1, 2));
    assert(file.subrange(24, 28) == digest::le_bytes(sample_rate as nat, 4));
    assert(file.subrange(28, 32) == digest::le_bytes(2 * sample_rate as nat, 4));
    assert(file.subrange(32, 34) == digest::le_bytes(2, 2));
    assert(file.subrange(34, 36) == digest::le_bytes(16, 2));
    assert(file.subrange(36, 40) == data_tag());
    assert(file.subrange(40, 44) == digest::le_bytes(2 * count, 4));
}

} // verus!
