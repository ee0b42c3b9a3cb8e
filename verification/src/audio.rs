//! Microphone capture: the device list, the push-to-talk recorder, the
//! voice-activity segmenter and the plan for resampling to 16 kHz.
//! Samples are generic here; the app records `f32` samples.

use vstd::prelude::*;
use crate::text::{concat, owned, str_eq};

verus! {

/// An input device as listed in the settings.
pub struct DeviceInfo {
    pub name: String,
    pub is_default: bool,
}

/// The device list from the names of the input devices and the name of
/// the default one (empty where there is none): a device is marked default
/// when its name is the default's.
pub fn device_list(names: Vec<String>, default_name: &str) -> (r: Vec<DeviceInfo>)
    ensures
        r@.len() == names@.len(),
        forall|i: int|
            0 <= i < r@.len() ==> (#[trigger] r@[i]).name == names@[i] && r@[i].is_default == (
            names@[i]@ == default_name@),
{
    let mut names = names;
    let ghost given = names@;
    let mut rev: Vec<DeviceInfo> = Vec::new();
    while names.len() > 0
        invariant
            names@.len() + rev@.len() == given.len(),
            names@ == given.take(names@.len() as int),
            forall|i: int|
                0 <= i < rev@.len() ==> (#[trigger] rev@[i]).name == given[given.len() - 1
                    - i] && rev@[i].is_default == (given[given.len() - 1 - i]@
                    == default_name@),
        decreases names@.len(),
    {
        let name = names.pop().unwrap();
        let is_default = str_eq(name.as_str(), default_name);
        rev.push(DeviceInfo { name, is_default });
        assert(names@ =~= given.take(names@.len() as int));
    }
    let mut r: Vec<DeviceInfo> = Vec::new();
    while rev.len() > 0
        invariant
            rev@.len() + r@.len() == given.len(),
            forall|i: int|
                0 <= i < rev@.len() ==> (#[trigger] rev@[i]).name == given[given.len() - 1
                    - i] && rev@[i].is_default == (given[given.len() - 1 - i]@
                    == default_name@),
            forall|i: int|
                0 <= i < r@.len() ==> (#[trigger] r@[i]).name == given[i] && r@[i].is_default == (
                given[i]@ == default_name@),
        decreases rev@.len(),
    {
        let d = rev.pop().unwrap();
        r.push(d);
    }
    r
}

/// The push-to-talk recorder as a value: whether it records, the samples
/// taken since recording started, the capture error to report, and the
/// device's sample rate.
pub struct PttModel<T> {
    pub recording: bool,
    pub buffer: Option<Seq<T>>,
    pub error: Option<Seq<char>>,
    pub sample_rate: u32,
}

/// The push-to-talk recorder.
pub struct PttRecorder<T> {
    pub recording: bool,
    pub buffer: Option<Vec<T>>,
    pub capture_error: Option<String>,
    pub sample_rate: u32,
}

impl<T> View for PttRecorder<T> {
    type V = PttModel<T>;

    open spec fn view(&self) -> PttModel<T> {
        PttModel {
            recording: self.recording,
            buffer: match self.buffer {
                Some(b) => Some(b@),
                None => None,
            },
            error: match self.capture_error {
                Some(e) => Some(e@),
                None => None,
            },
            sample_rate: self.sample_rate,
        }
    }
}

/// A press of the key: from idle, recording starts with an empty buffer
/// and no error; while recording nothing changes.
pub open spec fn ptt_start<T>(m: PttModel<T>) -> PttModel<T> {
    if m.recording {
        m
    } else {
        PttModel { recording: true, buffer: Some(Seq::empty()), error: None, ..m }
    }
}

/// The release of the key: no more samples are taken.
pub open spec fn ptt_release<T>(m: PttModel<T>) -> PttModel<T> {
    PttModel { recording: false, ..m }
}

/// Samples from the device: kept only while recording into a buffer.
pub open spec fn ptt_record<T>(m: PttModel<T>, samples: Seq<T>) -> PttModel<T> {
    if m.recording && m.buffer is Some {
        PttModel { buffer: Some(m.buffer->0 + samples), ..m }
    } else {
        m
    }
}

/// Samples from the device, several deliveries in order.
pub open spec fn ptt_record_all<T>(m: PttModel<T>, deliveries: Seq<Seq<T>>) -> PttModel<T>
    decreases deliveries.len(),
{
    if deliveries.len() == 0 {
        m
    } else {
        ptt_record(ptt_record_all(m, deliveries.drop_last()), deliveries.last())
    }
}

/// The deliveries one after another.
pub open spec fn flatten_all<T>(deliveries: Seq<Seq<T>>) -> Seq<T>
    decreases deliveries.len(),
{
    if deliveries.len() == 0 {
        Seq::empty()
    } else {
        flatten_all(deliveries.drop_last()) + deliveries.last()
    }
}

/// What the release of the key gives: the capture error if one was kept,
/// else the buffered samples (none if there is no buffer) and the rate.
pub open spec fn ptt_stop_result<T>(m: PttModel<T>) -> Result<(Seq<T>, u32), Seq<char>> {
    match m.error {
        Some(e) => Err(e),
        None => Ok(
            (
                match m.buffer {
                    Some(b) => b,
                    None => Seq::empty(),
                },
                m.sample_rate,
            ),
        ),
    }
}

/// The recorder after the release of the key: not recording; the error
/// taken if there was one, else the buffer taken.
pub open spec fn ptt_stop_state<T>(m: PttModel<T>) -> PttModel<T> {
    match m.error {
        Some(_) => PttModel { recording: false, error: None, ..m },
        None => PttModel { recording: false, buffer: None, ..m },
    }
}

impl<T> PttRecorder<T> {
    /// An idle recorder, at 16 kHz until a device says otherwise.
    pub fn new() -> (r: Self)
        ensures
            r@ == (PttModel::<T> {
                recording: false,
                buffer: None,
                error: None,
                sample_rate: 16000,
            }),
    {
        PttRecorder { recording: false, buffer: None, capture_error: None, sample_rate: 16000 }
    }

    /// Starts recording. Returns whether a capture must be launched: not
    /// when one is already running.
    pub fn start(&mut self) -> (launch: bool)
        ensures
            final(self)@ == ptt_start(old(self)@),
            launch == !old(self)@.recording,
    {
        if self.recording {
            return false;
        }
        self.recording = true;
        self.buffer = Some(Vec::new());
        self.capture_error = None;
        true
    }

    /// The capture runs at the device's sample rate.
    pub fn capture_ready(&mut self, sample_rate: u32)
        ensures
            final(self)@ == (PttModel { sample_rate, ..old(self)@ }),
    {
        self.sample_rate = sample_rate;
    }

    /// The capture could not start or stopped with an error: recording ends
    /// and the error is kept for the release.
    pub fn capture_failed(&mut self, error: String)
        ensures
            final(self)@ == (PttModel { recording: false, error: Some(error@), ..old(self)@ }),
    {
        self.capture_error = Some(error);
        self.recording = false;
    }

    /// The device's stream reported an error: it is kept for the release
    /// as `Audio stream error: <error>`.
    pub fn stream_failed(&mut self, error: &str)
        ensures
            final(self)@ == (PttModel {
                error: Some("Audio stream error: "@ + error@),
                ..old(self)@
            }),
    {
        self.capture_error = Some(concat("Audio stream error: ", error));
    }

    /// The key was released: recording ends, and the samples and any error
    /// stay for `stop` to hand over once the capture has finished.
    pub fn release(&mut self)
        ensures
            final(self)@ == ptt_release(old(self)@),
    {
        self.recording = false;
    }

    /// Mono samples delivered by the device.
    pub fn record(&mut self, samples: Vec<T>)
        ensures
            final(self)@ == ptt_record(old(self)@, samples@),
    {
        let mut samples = samples;
        if self.recording {
            match &mut self.buffer {
                Some(b) => {
                    b.append(&mut samples);
                },
                None => {},
            }
        }
    }

    /// Releases the key: the kept error, or the samples and their rate.
    pub fn stop(&mut self) -> (r: Result<(Vec<T>, u32), String>)
        ensures
            final(self)@ == ptt_stop_state(old(self)@),
            match r {
                Ok((a, rate)) => ptt_stop_result(old(self)@) == Ok::<(Seq<T>, u32), Seq<char>>(
                    (a@, rate),
                ),
                Err(e) => ptt_stop_result(old(self)@) == Err::<(Seq<T>, u32), Seq<char>>(e@),
            },
    {
        self.recording = false;
        match self.capture_error.take() {
            Some(e) => {
                return Err(e);
            },
            None => {},
        }
        let audio = match self.buffer.take() {
            Some(b) => b,
            None => Vec::new(),
        };
        Ok((audio, self.sample_rate))
    }
}

/// Recording from idle and releasing gives back every sample delivered in
/// between, in order, at the device's rate, provided no error was kept.
pub proof fn lemma_ptt_returns_recorded<T>(m: PttModel<T>, deliveries: Seq<Seq<T>>)
    requires
        !m.recording,
    ensures
        ptt_record_all(ptt_start(m), deliveries).recording,
        ptt_record_all(ptt_start(m), deliveries).error is None,
        ptt_stop_result(ptt_record_all(ptt_start(m), deliveries)) == Ok::<
            (Seq<T>, u32),
            Seq<char>,
        >((flatten_all(deliveries), m.sample_rate)),
        !ptt_stop_state(ptt_record_all(ptt_start(m), deliveries)).recording,
{
    let s = ptt_start(m);
    lemma_ptt_buffer_present(s, deliveries);
    assert(s.buffer->0 + flatten_all(deliveries) =~= flatten_all(deliveries));
}

proof fn lemma_ptt_buffer_present<T>(m: PttModel<T>, deliveries: Seq<Seq<T>>)
    requires
        m.recording,
        m.buffer is Some,
        m.error is None,
    ensures
        ptt_record_all(m, deliveries).buffer is Some,
        ptt_record_all(m, deliveries).buffer->0 == m.buffer->0 + flatten_all(deliveries),
        ptt_record_all(m, deliveries).recording,
        ptt_record_all(m, deliveries).error is None,
        ptt_record_all(m, deliveries).sample_rate == m.sample_rate,
    decreases deliveries.len(),
{
    if deliveries.len() == 0 {
        assert(m.buffer->0 + flatten_all(deliveries) =~= m.buffer->0);
    } else {
        lemma_ptt_buffer_present(m, deliveries.drop_last());
        assert(m.buffer->0 + flatten_all(deliveries) =~= (m.buffer->0 + flatten_all(
            deliveries.drop_last(),
        )) + deliveries.last());
    }
}

/// Releasing the key before stopping changes neither what `stop` returns
/// nor the state it leaves, and samples that arrive after the release are
/// not kept.
pub proof fn lemma_ptt_release_then_stop<T>(m: PttModel<T>, late: Seq<T>)
    ensures
        ptt_stop_result(ptt_record(ptt_release(m), late)) == ptt_stop_result(m),
        ptt_stop_state(ptt_record(ptt_release(m), late)) == ptt_stop_state(m),
{
}

/// Pressing the key again while recording changes nothing.
pub proof fn lemma_ptt_start_idempotent<T>(m: PttModel<T>)
    ensures
        ptt_start(ptt_start(m)) == ptt_start(m),
{
}

/// A press while recording changes nothing: the buffer, the error, the
/// rate and the recording flag all stay as they were.
pub proof fn lemma_ptt_press_while_recording<T>(m: PttModel<T>)
    requires
        m.recording,
    ensures
        ptt_start(m) == m,
{
}

/// A second press in the middle of a hold loses nothing: the release gives
/// every sample recorded before it and after it, in order.
pub proof fn lemma_ptt_second_press_keeps_audio<T>(
    m: PttModel<T>,
    before: Seq<Seq<T>>,
    after: Seq<Seq<T>>,
)
    requires
        !m.recording,
    ensures
        ptt_stop_result(ptt_record_all(ptt_start(ptt_record_all(ptt_start(m), before)), after))
            == Ok::<(Seq<T>, u32), Seq<char>>(
            (flatten_all(before) + flatten_all(after), m.sample_rate),
        ),
{
    let s = ptt_start(m);
    lemma_ptt_buffer_present(s, before);
    let h = ptt_record_all(s, before);
    assert(ptt_start(h) == h);
    lemma_ptt_buffer_present(h, after);
    assert(s.buffer->0 + flatten_all(before) =~= flatten_all(before));
}


/// How long starting a push-to-talk capture may take, in milliseconds.
pub const PTT_START_TIMEOUT_MS: u64 = 1500;

/// The result of starting a push-to-talk capture, from the signal that the
/// capture sent: `Ok` once it started, its error where it failed, and
/// `Audio capture did not start within 1500ms` where no signal came in
/// time (`None`).
pub fn ptt_start_outcome(signal: Option<Result<(), String>>) -> (r: Result<(), String>)
    ensures
        signal matches Some(Ok(())) ==> r is Ok,
        signal matches Some(Err(e)) ==> r == Err::<(), String>(e),
        signal is None ==> (r matches Err(e) && e@ == "Audio capture did not start within 1500ms"@),
{
    match signal {
        Some(Ok(())) => Ok(()),
        Some(Err(e)) => Err(e),
        None => {
            proof {
                reveal_strlit("Audio capture did not start within 1500ms");
            }
            Err(owned("Audio capture did not start within 1500ms"))
        },
    }
}

/// The sample rate that transcription takes, in Hz.
pub const TARGET_RATE: u32 = 16000;

/// How a capture at some rate is brought to 16 kHz.
#[derive(PartialEq, Eq, Structural, Clone, Copy, Debug)]
pub enum ResamplePlan {
    /// Nothing comes out (no input, no rate, or too short to give a sample).
    Empty,
    /// The capture is already at 16 kHz.
    Unchanged,
    /// Linear interpolation to this many samples.
    Interpolate { output_len: usize },
}

/// The number of 16 kHz samples that a capture of `input_len` samples at
/// `source_rate` lasts, rounded down.
pub open spec fn resampled_len(input_len: nat, source_rate: nat) -> nat
    recommends
        source_rate > 0,
{
    input_len * 16000 / source_rate
}

/// Plans the resampling of a capture to 16 kHz.
pub fn resample_plan(input_len: usize, source_rate: u32) -> (r: ResamplePlan)
    requires
        input_len * 16000 <= u64::MAX,
    ensures
        input_len == 0 || source_rate == 0 ==> r == ResamplePlan::Empty,
        input_len != 0 && source_rate == TARGET_RATE ==> r == ResamplePlan::Unchanged,
        input_len != 0 && source_rate != 0 && source_rate != TARGET_RATE ==> r == (if (#[verifier::truncate]
        (resampled_len(input_len as nat, source_rate as nat) as usize)) == 0 {
            ResamplePlan::Empty
        } else {
            ResamplePlan::Interpolate {
                output_len: #[verifier::truncate]
                (resampled_len(input_len as nat, source_rate as nat) as usize),
            }
        }),
{
    if input_len == 0 || source_rate == 0 {
        return ResamplePlan::Empty;
    }
    if source_rate == TARGET_RATE {
        return ResamplePlan::Unchanged;
    }
    let out = (input_len as u64) * (TARGET_RATE as u64) / (source_rate as u64);
    let output_len = #[verifier::truncate] (out as usize);
    if output_len == 0 {
        return ResamplePlan::Empty;
    }
    ResamplePlan::Interpolate { output_len }
}

/// Samples per second that voice detection works at.
pub const VAD_SAMPLE_RATE: usize = 16000;

/// Speech must last this long before a segment begins, in milliseconds.
pub const SPEECH_MIN_MS: usize = 300;

/// Silence this long ends a segment, in milliseconds.
pub const SILENCE_MAX_MS: usize = 1000;

/// Speech must last this many samples (300 ms) before a segment begins.
pub const SPEECH_MIN_SAMPLES: usize = VAD_SAMPLE_RATE * SPEECH_MIN_MS / 1000;

/// This many samples of silence (1 s) end a segment.
pub const SILENCE_MAX_SAMPLES: usize = VAD_SAMPLE_RATE * SILENCE_MAX_MS / 1000;

/// The voice-activity segmenter as a value.
pub struct VadModel<T> {
    pub in_speech: bool,
    pub speech_count: nat,
    pub silence_count: nat,
    pub buffer: Seq<T>,
}

/// The voice-activity segmenter: it gathers chunks of audio, each judged
/// speech or not by its loudness, and cuts a segment when speech of at
/// least 300 ms is followed by a second of silence.
pub struct VadSegmenter<T> {
    pub in_speech: bool,
    pub speech_count: usize,
    pub silence_count: usize,
    pub buffer: Vec<T>,
}

impl<T> View for VadSegmenter<T> {
    type V = VadModel<T>;

    open spec fn view(&self) -> VadModel<T> {
        VadModel {
            in_speech: self.in_speech,
            speech_count: self.speech_count as nat,
            silence_count: self.silence_count as nat,
            buffer: self.buffer@,
        }
    }
}

/// The segmenter's invariant: it is in speech exactly when 300 ms of
/// speech have been counted, silence is counted only in speech, the
/// counted samples are all in the buffer, and before speech is confirmed
/// the buffer holds nothing but the current run of speech.
pub open spec fn vad_wf<T>(m: VadModel<T>) -> bool {
    &&& m.in_speech <==> m.speech_count >= SPEECH_MIN_SAMPLES
    &&& !m.in_speech ==> m.silence_count == 0
    &&& !m.in_speech ==> m.buffer.len() == m.speech_count
    &&& m.speech_count + m.silence_count <= m.buffer.len()
}

/// One step of the segmenter on a chunk: the next state and the segment
/// that it cuts, if any. An empty chunk changes nothing. Speech is
/// buffered and counted; silence in speech is buffered and counted, and a
/// second of it cuts the buffer as a segment and starts over; silence
/// before speech is confirmed discards what was buffered (a blip shorter
/// than 300 ms) and starts over.
pub open spec fn vad_step<T>(m: VadModel<T>, chunk: Seq<T>, is_speech: bool) -> (
    VadModel<T>,
    Option<Seq<T>>,
) {
    if chunk.len() == 0 {
        (m, None)
    } else if is_speech {
        let sc = m.speech_count + chunk.len();
        (
            VadModel {
                in_speech: sc >= SPEECH_MIN_SAMPLES,
                speech_count: sc,
                silence_count: 0,
                buffer: m.buffer + chunk,
            },
            None,
        )
    } else if m.in_speech {
        let sil = m.silence_count + chunk.len();
        let b = m.buffer + chunk;
        if sil >= SILENCE_MAX_SAMPLES {
            (
                VadModel { in_speech: false, speech_count: 0, silence_count: 0, buffer: Seq::empty() },
                Some(b),
            )
        } else {
            (VadModel { silence_count: sil, buffer: b, ..m }, None)
        }
    } else {
        (VadModel { in_speech: false, speech_count: 0, silence_count: 0, buffer: Seq::empty() }, None)
    }
}

impl<T> VadSegmenter<T> {
    /// A segmenter waiting for speech.
    pub fn new() -> (r: Self)
        ensures
            r@ == (VadModel::<T> {
                in_speech: false,
                speech_count: 0,
                silence_count: 0,
                buffer: Seq::empty(),
            }),
            vad_wf(r@),
    {
        VadSegmenter { in_speech: false, speech_count: 0, silence_count: 0, buffer: Vec::new() }
    }

    /// Takes a chunk of audio and whether it is speech; returns the segment
    /// that the chunk completes, if any. A segment holds at least 300 ms of
    /// speech and the second of silence that ended it.
    pub fn step(&mut self, chunk: Vec<T>, is_speech: bool) -> (r: Option<Vec<T>>)
        requires
            vad_wf(old(self)@),
            old(self)@.buffer.len() + chunk@.len() <= usize::MAX,
        ensures
            vad_wf(final(self)@),
            final(self)@ == vad_step(old(self)@, chunk@, is_speech).0,
            match r {
                Some(seg) => vad_step(old(self)@, chunk@, is_speech).1 == Some(seg@),
                None => vad_step(old(self)@, chunk@, is_speech).1 is None,
            },
            r matches Some(seg) ==> seg@.len() >= SPEECH_MIN_SAMPLES + SILENCE_MAX_SAMPLES,
    {
        let ghost before = self.buffer@;
        let mut moved = chunk;
        let n = moved.len();
        if n == 0 {
            return None;
        }
        if is_speech {
            self.buffer.append(&mut moved);
            assert(self.buffer@ =~= before + chunk@);
            self.speech_count = self.speech_count + n;
            self.silence_count = 0;
            self.in_speech = self.speech_count >= SPEECH_MIN_SAMPLES;
            None
        } else if self.in_speech {
            self.buffer.append(&mut moved);
            assert(self.buffer@ =~= before + chunk@);
            self.silence_count = self.silence_count + n;
            if self.silence_count >= SILENCE_MAX_SAMPLES {
                let segment = self.buffer.split_off(0);
                assert(self.buffer@ =~= Seq::<T>::empty());
                assert(segment@ =~= before + chunk@);
                self.in_speech = false;
                self.speech_count = 0;
                self.silence_count = 0;
                Some(segment)
            } else {
                None
            }
        } else {
            self.buffer = Vec::new();
            self.speech_count = 0;
            None
        }
    }
}

/// In speech the segmenter stays in speech until it cuts a segment.
pub proof fn lemma_vad_speech_ends_with_segment<T>(m: VadModel<T>, chunk: Seq<T>, is_speech: bool)
    requires
        vad_wf(m),
        m.in_speech,
    ensures
        !vad_step(m, chunk, is_speech).0.in_speech <==> vad_step(m, chunk, is_speech).1 is Some,
{
}

/// A cut segment is the buffer with the chunk that completed the second of
/// silence, and the segmenter starts over empty.
pub proof fn lemma_vad_segment_is_buffer<T>(m: VadModel<T>, chunk: Seq<T>, is_speech: bool)
    requires
        vad_wf(m),
        vad_step(m, chunk, is_speech).1 is Some,
    ensures
        vad_step(m, chunk, is_speech).1 == Some(m.buffer + chunk),
        vad_step(m, chunk, is_speech).0 == (VadModel::<T> {
            in_speech: false,
            speech_count: 0,
            silence_count: 0,
            buffer: Seq::empty(),
        }),
        !is_speech && m.in_speech && m.silence_count + chunk.len() >= SILENCE_MAX_SAMPLES,
{
}

/// A speech chunk ends any run of silence: after it the silence count is
/// zero and no segment is cut, whatever the segmenter held.
pub proof fn lemma_vad_speech_resets_silence<T>(m: VadModel<T>, chunk: Seq<T>)
    requires
        vad_wf(m),
        chunk.len() > 0,
    ensures
        vad_step(m, chunk, true).0.silence_count == 0,
        vad_step(m, chunk, true).1 is None,
        vad_step(m, chunk, true).0.buffer == m.buffer + chunk,
{
}

/// A segment is cut only by silence: the chunk that cuts it is not speech,
/// and the silence since the last speech chunk, this chunk included,
/// reaches a second; a pause shorter than a second after speech cuts
/// nothing and is counted from zero.
pub proof fn lemma_vad_pause_after_speech<T>(m: VadModel<T>, speech: Seq<T>, pause: Seq<T>)
    requires
        vad_wf(m),
        speech.len() > 0,
        pause.len() < SILENCE_MAX_SAMPLES,
    ensures
        ({
            let m1 = vad_step(m, speech, true).0;
            &&& vad_step(m1, pause, false).1 is None
            &&& m1.in_speech ==> vad_step(m1, pause, false).0.silence_count == pause.len()
            &&& m1.in_speech ==> vad_step(m1, pause, false).0.buffer == m.buffer + speech + pause
        }),
{
}

/// Silence before speech is confirmed discards a shorter run of speech:
/// the segmenter starts over empty, so no later segment holds the blip.
pub proof fn lemma_vad_drops_pre_speech<T>(m: VadModel<T>, chunk: Seq<T>)
    requires
        vad_wf(m),
        !m.in_speech,
        chunk.len() > 0,
    ensures
        vad_step(m, chunk, false).0 == (VadModel::<T> {
            in_speech: false,
            speech_count: 0,
            silence_count: 0,
            buffer: Seq::empty(),
        }),
        vad_step(m, chunk, false).1 is None,
{
}

/// Until speech is confirmed, the buffer is exactly the chunks of the
/// current run of speech: a speech chunk is appended to it, and in speech
/// the run it starts has at least 300 ms of samples.
pub proof fn lemma_vad_buffer_is_speech_run<T>(m: VadModel<T>, chunk: Seq<T>)
    requires
        vad_wf(m),
        !m.in_speech,
        chunk.len() > 0,
    ensures
        vad_step(m, chunk, true).0.buffer == m.buffer + chunk,
        vad_step(m, chunk, true).0.speech_count == m.buffer.len() + chunk.len(),
        vad_step(m, chunk, true).0.in_speech <==> m.buffer.len() + chunk.len()
            >= SPEECH_MIN_SAMPLES,
        vad_step(m, chunk, true).1 is None,
{
}

} // verus!
