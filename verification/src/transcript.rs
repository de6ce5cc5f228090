//! Live transcription while the microphone records: the samples waiting to
//! be transcribed, the transcript built from the chunks, when a batch of
//! samples is worth sending, and the one-recording-at-a-time rule.
use vstd::prelude::*;
use crate::text;
use crate::text::{chars_of, string_of, trim_chars};

verus! {

/// The samples not yet sent for transcription and the transcript so far.
pub struct TranscriptBuffer {
    pending: Vec<i16>,
    transcript: Vec<char>,
}

/// The transcript after a transcribed chunk arrives: empty chunks change
/// nothing, others are appended with a space between them and what was there.
pub open spec fn with_chunk(transcript: Seq<char>, chunk: Seq<char>) -> Seq<char> {
    if chunk.len() == 0 {
        transcript
    } else if transcript.len() == 0 {
        chunk
    } else {
        transcript + seq![' '] + chunk
    }
}

/// The transcript of a recording whose chunks arrived in this order.
pub open spec fn transcript_of(chunks: Seq<Seq<char>>) -> Seq<char>
    decreases chunks.len(),
{
    if chunks.len() == 0 {
        Seq::empty()
    } else {
        with_chunk(transcript_of(chunks.drop_last()), chunks.last())
    }
}

impl TranscriptBuffer {
    /// The samples waiting to be transcribed.
    pub closed spec fn pending(&self) -> Seq<i16> {
        self.pending@
    }

    /// The transcript so far.
    pub closed spec fn transcript(&self) -> Seq<char> {
        self.transcript@
    }

    /// An empty buffer at the start of a recording.
    pub fn new() -> (b: Self)
        ensures
            b.pending() == Seq::<i16>::empty(),
            b.transcript() == Seq::<char>::empty(),
    {
        TranscriptBuffer { pending: Vec::new(), transcript: Vec::new() }
    }

    /// Queues samples that the microphone delivered.
    pub fn push_samples(&mut self, samples: &[i16])
        ensures
            final(self).pending() == old(self).pending() + samples@,
            final(self).transcript() == old(self).transcript(),
    {
        let mut i: usize = 0;
        while i < samples.len()
            invariant
                0 <= i <= samples.len(),
                self.pending@ == old(self).pending@ + samples@.take(i as int),
                self.transcript@ == old(self).transcript@,
            decreases samples.len() - i,
        {
            self.pending.push(samples[i]);
            i = i + 1;
            assert(self.pending@ =~= old(self).pending@ + samples@.take(i as int));
        }
        assert(samples@.take(samples.len() as int) =~= samples@);
    }

    /// Takes every queued sample out of the buffer.
    pub fn take_pending(&mut self) -> (batch: Vec<i16>)
        ensures
            batch@ == old(self).pending(),
            final(self).pending() == Seq::<i16>::empty(),
            final(self).transcript() == old(self).transcript(),
    {
        let mut batch: Vec<i16> = Vec::new();
        std::mem::swap(&mut batch, &mut self.pending);
        batch
    }

    /// Adds a transcribed chunk to the transcript; returns whether the chunk
    /// was kept (and so is to be shown).
    pub fn add_chunk(&mut self, chunk: &str) -> (kept: bool)
        ensures
            kept == (chunk@.len() > 0),
            final(self).transcript() == with_chunk(old(self).transcript(), chunk@),
            final(self).pending() == old(self).pending(),
    {
        let c = chars_of(chunk);
        if c.len() == 0 {
            return false;
        }
        if self.transcript.len() > 0 {
            self.transcript.push(' ');
        }
        let ghost before = self.transcript@;
        text::extend_chars(&mut self.transcript, &c);
        true
    }

    /// The transcript so far.
    pub fn transcript_text(&self) -> (s: String)
        ensures
            s@ == self.transcript(),
    {
        string_of(&self.transcript)
    }
}

/// The non-empty chunks, in order.
pub open spec fn kept_chunks(chunks: Seq<Seq<char>>) -> Seq<Seq<char>>
    decreases chunks.len(),
{
    if chunks.len() == 0 {
        Seq::empty()
    } else if chunks.last().len() == 0 {
        kept_chunks(chunks.drop_last())
    } else {
        kept_chunks(chunks.drop_last()).push(chunks.last())
    }
}

proof fn lemma_kept_nonempty(chunks: Seq<Seq<char>>)
    ensures
        forall|k: int|
            0 <= k < kept_chunks(chunks).len() ==> (#[trigger] kept_chunks(chunks)[k]).len() > 0,
    decreases chunks.len(),
{
    if chunks.len() > 0 {
        lemma_kept_nonempty(chunks.drop_last());
        let k = kept_chunks(chunks.drop_last());
        if chunks.last().len() > 0 {
            assert forall|i: int| 0 <= i < k.len() + 1 implies (#[trigger] k.push(
                chunks.last(),
            )[i]).len() > 0 by {
                if i < k.len() {
                    assert(k.push(chunks.last())[i] == k[i]);
                }
            }
        }
    }
}

/// Law: the transcript is the non-empty chunks in the order they arrived,
/// separated by single spaces.
pub proof fn lemma_transcript_joins_chunks(chunks: Seq<Seq<char>>)
    ensures
        transcript_of(chunks) == text::join(kept_chunks(chunks), seq![' ']),
    decreases chunks.len(),
{
    if chunks.len() > 0 {
        let head = chunks.drop_last();
        let c = chunks.last();
        lemma_transcript_joins_chunks(head);
        lemma_kept_nonempty(head);
        text::lemma_join_empty(kept_chunks(head), seq![' ']);
        if c.len() > 0 {
            let k = kept_chunks(head);
            assert(k.push(c).drop_last() =~= k);
            if k.len() == 0 {
                assert(k.push(c) =~= seq![c]);
            }
        }
    }
}

/// The least number of samples in a periodic batch: two seconds of sound.
pub open spec fn periodic_minimum(sample_rate: u32, channels: u16) -> int {
    sample_rate * channels * 2
}

/// The least number of samples in the last batch: half a second of sound.
pub open spec fn final_minimum(sample_rate: u32, channels: u16) -> int {
    (sample_rate * channels) / 2
}

/// Whether a periodic batch is long enough to transcribe; shorter batches
/// are dropped.
pub fn periodic_batch_ready(batch_len: usize, sample_rate: u32, channels: u16) -> (b: bool)
    ensures
        b == (batch_len >= periodic_minimum(sample_rate, channels)),
{
    let sr = sample_rate as u64;
    let ch = channels as u64;
    assert(sr * ch <= 0xffff_ffff_ffff) by (nonlinear_arith)
        requires
            sr <= 0xffff_ffff,
            ch <= 0xffff,
    ;
    let per_second = sr * ch;
    (batch_len as u64) >= per_second * 2
}

/// Whether the samples left when recording stops are long enough to
/// transcribe.
pub fn final_batch_ready(batch_len: usize, sample_rate: u32, channels: u16) -> (b: bool)
    ensures
        b == (batch_len >= final_minimum(sample_rate, channels)),
{
    let sr = sample_rate as u64;
    let ch = channels as u64;
    assert(sr * ch <= 0xffff_ffff_ffff) by (nonlinear_arith)
        requires
            sr <= 0xffff_ffff,
            ch <= 0xffff,
    ;
    let per_second = sr * ch;
    (batch_len as u64) >= per_second / 2
}

/// The WAV file, with 16-bit integer samples, that holds `samples`
/// interleaved over `channels` channels at `sample_rate` frames per second.
pub uninterp spec fn wav_file(samples: Seq<i16>, sample_rate: u32, channels: u16) -> Seq<u8>;

/// Whether the WAV writer takes a batch of `n` samples with these sound
/// parameters: it divides by the sample rate and the channel count, and it
/// keeps the bytes per second and the file's size in 32-bit counters.
pub open spec fn wav_writable(n: int, sample_rate: u32, channels: u16) -> bool {
    &&& sample_rate > 0
    &&& channels > 0
    &&& sample_rate * 2 * channels <= u32::MAX
    &&& n * 2 + 60 <= u32::MAX
}

/// The length of the header of a WAV file with 16-bit samples: 44 bytes, or
/// 68 for more than two channels, whose format needs the extensible header.
pub open spec fn wav_header_len(channels: u16) -> int {
    if channels > 2 {
        68
    } else {
        44
    }
}

/// `hound::WavWriter` writing 16-bit integer samples into memory. Claimed:
/// the bytes are the WAV file of the samples with these parameters (named,
/// not described), a header followed by two bytes per sample. What the bytes
/// hold beyond their number is left to hound.
#[verifier::external_body]
fn encode_wav_bytes(samples: &[i16], sample_rate: u32, channels: u16) -> (b: Vec<u8>)
    requires
        wav_writable(samples@.len() as int, sample_rate, channels),
    ensures
        b@ == wav_file(samples@, sample_rate, channels),
        b@.len() == wav_header_len(channels) + 2 * samples@.len(),
{
    let spec = hound::WavSpec {
        channels,
        sample_rate,
        bits_per_sample: 16,
        sample_format: hound::SampleFormat::Int,
    };
    let mut buf = std::io::Cursor::new(Vec::new());
    if let Ok(mut writer) = hound::WavWriter::new(&mut buf, spec) {
        for &s in samples {
            let _ = writer.write_sample(s);
        }
        let _ = writer.finalize();
    }
    buf.into_inner()
}

/// The WAV file to transcribe for a batch taken while recording, or `None`
/// when the batch is too short and is dropped.
pub fn periodic_wav(samples: &[i16], sample_rate: u32, channels: u16) -> (w: Option<Vec<u8>>)
    requires
        wav_writable(samples@.len() as int, sample_rate, channels),
    ensures
        match w {
            Some(b) => samples@.len() >= periodic_minimum(sample_rate, channels) && b@ == wav_file(
                samples@,
                sample_rate,
                channels,
            ),
            None => samples@.len() < periodic_minimum(sample_rate, channels),
        },
{
    if periodic_batch_ready(samples.len(), sample_rate, channels) {
        Some(encode_wav_bytes(samples, sample_rate, channels))
    } else {
        None
    }
}

/// The WAV file to transcribe for the samples left when recording stops, or
/// `None` when they are too short.
pub fn final_wav(samples: &[i16], sample_rate: u32, channels: u16) -> (w: Option<Vec<u8>>)
    requires
        wav_writable(samples@.len() as int, sample_rate, channels),
    ensures
        match w {
            Some(b) => samples@.len() >= final_minimum(sample_rate, channels) && b@ == wav_file(
                samples@,
                sample_rate,
                channels,
            ),
            None => samples@.len() < final_minimum(sample_rate, channels),
        },
{
    if final_batch_ready(samples.len(), sample_rate, channels) {
        Some(encode_wav_bytes(samples, sample_rate, channels))
    } else {
        None
    }
}

/// The chunk text of a transcription reply: its `text` field trimmed, or
/// nothing when the reply has no text.
pub fn chunk_text(field: Option<String>) -> (t: String)
    ensures
        t@ == text::trim(
            match field {
                Some(s) => s@,
                None => Seq::empty(),
            },
        ),
{
    match field {
        Some(s) => string_of(&trim_chars(&chars_of(s.as_str()))),
        None => {
            let e: Vec<char> = Vec::new();
            assert(text::trim(Seq::<char>::empty()) =~= Seq::<char>::empty());
            string_of(&e)
        },
    }
}

/// The result of transcribing a stored recording: its `text` field, or an
/// error when the reply has none.
pub fn transcription_result(field: Option<String>) -> (r: Result<String, String>)
    ensures
        match field {
            Some(s) => r matches Ok(t) && t@ == s@,
            None => r matches Err(e) && e@ == "No 'text' field in API response"@,
        },
{
    match field {
        Some(s) => Ok(s),
        None => Err(string_of(&chars_of("No 'text' field in API response"))),
    }
}

/// The single recording that may run at a time.
pub struct Session<T> {
    current: Option<T>,
}

impl<T> Session<T> {
    /// The recording under way, if any.
    pub closed spec fn current(&self) -> Option<T> {
        self.current
    }

    /// No recording under way.
    pub fn idle() -> (s: Self)
        ensures
            s.current() is None,
    {
        Session { current: None }
    }

    /// Whether a recording is under way.
    pub fn is_active(&self) -> (b: bool)
        ensures
            b == self.current() is Some,
    {
        self.current.is_some()
    }

    /// Whether a new recording may start: refused while one is under way.
    pub fn check_idle(&self) -> (r: Result<(), String>)
        ensures
            match self.current() {
                None => r is Ok,
                Some(_) => r matches Err(e) && e@ == "Already recording"@,
            },
    {
        if self.current.is_some() {
            Err(string_of(&chars_of("Already recording")))
        } else {
            Ok(())
        }
    }

    /// Starts a recording; refused, with the handle given back, while one is
    /// under way.
    pub fn begin(&mut self, handle: T) -> (r: Result<(), (String, T)>)
        ensures
            match old(self).current() {
                None => r is Ok && final(self).current() == Some(handle),
                Some(h) => r matches Err((e, back)) && e@ == "Already recording"@ && back == handle
                    && final(self).current() == Some(h),
            },
    {
        if self.current.is_some() {
            return Err((string_of(&chars_of("Already recording")), handle));
        }
        self.current = Some(handle);
        Ok(())
    }

    /// Ends the recording under way and hands back its handle; refused when
    /// none is under way.
    pub fn end(&mut self) -> (r: Result<T, String>)
        ensures
            final(self).current() is None,
            match old(self).current() {
                Some(h) => r == Ok::<T, String>(h),
                None => r matches Err(e) && e@ == "Not currently recording"@,
            },
    {
        match self.current.take() {
            Some(h) => Ok(h),
            None => Err(string_of(&chars_of("Not currently recording"))),
        }
    }
}

/// Law: while recording, a batch is sent once it holds two seconds of sound
/// (`sample_rate` frames a second, `channels` samples a frame); the samples
/// left at the end are sent once they hold half a second. More samples never
/// make a ready batch unready.
pub proof fn lemma_batch_thresholds(sample_rate: u32, channels: u16, n: int, m: int)
    requires
        0 <= n <= m,
    ensures
        periodic_minimum(sample_rate, channels) == 2 * (sample_rate * channels),
        final_minimum(sample_rate, channels) == (sample_rate * channels) / 2,
        n >= periodic_minimum(sample_rate, channels) ==> m >= periodic_minimum(sample_rate, channels),
        n >= final_minimum(sample_rate, channels) ==> m >= final_minimum(sample_rate, channels),
        final_minimum(sample_rate, channels) <= periodic_minimum(sample_rate, channels),
{
    assert(sample_rate * channels >= 0) by (nonlinear_arith);
    assert(sample_rate * channels * 2 == 2 * (sample_rate * channels)) by (nonlinear_arith);
}

} // verus!
