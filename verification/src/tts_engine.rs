//! Word timings, voices, and the outcome of a speech synthesis run.
//!
//! Speaking rate is taken as 150 words per minute at normal speed. Speeds are
//! thousandths, as in the player, and times are milliseconds.

use crate::playback::clamp;
use crate::text::{
    byte_len, chars_of, lemma_words_are_words, split_words, string_of, string_views, utf8_len,
    words,
};
use vstd::prelude::*;
use vstd::string::*;

verus! {

/// When one word is spoken.
#[derive(Debug, Clone)]
pub struct WordTiming {
    pub word: String,
    pub start_ms: u64,
    pub end_ms: u64,
}

/// A finished synthesis: where the audio is, when each word falls, and how
/// long it lasts.
#[derive(Debug, Clone)]
pub struct TtsResult {
    pub audio_path: String,
    pub word_timings: Vec<WordTiming>,
    pub duration_ms: u64,
}

/// Why synthesis failed.
#[derive(Debug, Clone)]
pub struct TtsError {
    pub message: String,
}

/// A voice and whether its model is installed.
#[derive(Debug, Clone)]
pub struct VoiceInfo {
    pub name: String,
    pub language: String,
    pub available: bool,
}

/// Milliseconds given to a word of average length at `speed` thousandths.
pub open spec fn ms_per_word(speed: nat) -> nat {
    400_000nat / speed
}

/// Tenths of the average time that a word of `bytes` bytes gets: one tenth
/// for every half byte, no less than five and no more than twenty.
pub open spec fn length_factor(bytes: nat) -> nat {
    clamp(2 * bytes as int, 5, 20) as nat
}

/// Milliseconds given to `word` at `speed` thousandths.
pub open spec fn word_ms(word: Seq<char>, speed: nat) -> nat {
    ms_per_word(speed) * length_factor(utf8_len(word)) / 10
}

/// Milliseconds given to all of `words` at `speed` thousandths.
pub open spec fn span_ms(words: Seq<Seq<char>>, speed: nat) -> nat
    decreases words.len(),
{
    if words.len() == 0 {
        0
    } else {
        span_ms(words.drop_last(), speed) + word_ms(words.last(), speed)
    }
}

/// `timings` gives the words `ws` in order, each starting where the one
/// before it ends, the first at zero, and each lasting `word_ms`.
pub open spec fn timed(timings: Seq<WordTiming>, ws: Seq<Seq<char>>, speed: nat) -> bool {
    &&& timings.len() == ws.len()
    &&& forall|i: int|
        0 <= i < timings.len() ==> {
            &&& (#[trigger] timings[i]).word@ == ws[i]
            &&& timings[i].start_ms == span_ms(ws.take(i), speed)
            &&& timings[i].end_ms == span_ms(ws.take(i + 1), speed)
        }
}

/// No word gets more than twice the average time, which is at most 400 000 ms.
pub proof fn lemma_word_ms_bound(word: Seq<char>, speed: nat)
    requires
        speed > 0,
    ensures
        word_ms(word, speed) <= 2 * ms_per_word(speed),
        ms_per_word(speed) <= 400_000,
{
    let m = ms_per_word(speed);
    let f = length_factor(utf8_len(word));
    assert(m <= 400_000) by (nonlinear_arith)
        requires
            m == 400_000nat / speed,
            speed > 0,
    ;
    assert(m * f <= m * 20) by (nonlinear_arith)
        requires
            f <= 20,
    ;
}

/// A longer list of words never takes less time than one of its prefixes,
/// and `n` words never take more than `n` times 800 000 ms.
pub proof fn lemma_span_bounds(ws: Seq<Seq<char>>, speed: nat, k: int)
    requires
        speed > 0,
        0 <= k <= ws.len(),
    ensures
        span_ms(ws.take(k), speed) <= span_ms(ws, speed),
        span_ms(ws, speed) <= 800_000 * ws.len(),
    decreases ws.len(),
{
    if ws.len() == 0 {
        assert(ws.take(k) == ws);
    } else {
        lemma_word_ms_bound(ws.last(), speed);
        if k == ws.len() {
            assert(ws.take(k) == ws);
            lemma_span_bounds(ws.drop_last(), speed, 0);
        } else {
            assert(ws.drop_last().take(k) == ws.take(k));
            lemma_span_bounds(ws.drop_last(), speed, k);
        }
    }
}

/// The timings of a text fit in 64 bits whenever 800 000 times its length
/// in characters does.
pub proof fn lemma_timings_fit(text: Seq<char>, speed: nat)
    requires
        speed > 0,
        800_000 * text.len() <= u64::MAX,
    ensures
        span_ms(words(text), speed) <= u64::MAX,
{
    lemma_words_are_words(text);
    lemma_span_bounds(words(text), speed, 0);
}

/// Tells whether `text` is short enough for its timings to fit in 64 bits
/// at every speed.
pub fn timings_fit(text: &str) -> (fit: bool)
    ensures
        fit == (800_000 * text@.len() <= u64::MAX),
        fit ==> forall|speed: nat|
            speed > 0 ==> #[trigger] span_ms(words(text@), speed) <= u64::MAX,
{
    let fit = text.unicode_len() as u64 <= u64::MAX / 800_000;
    proof {
        if fit {
            assert forall|speed: nat| speed > 0 implies #[trigger] span_ms(words(text@), speed)
                <= u64::MAX by {
                lemma_timings_fit(text@, speed);
            }
        }
    }
    fit
}

/// The time given to one word whose UTF-8 length is `bytes`, capped at
/// `usize::MAX`, when an average word gets `per_word` milliseconds.
fn word_duration(per_word: u64, bytes: usize) -> (ms: u64)
    requires
        per_word <= 400_000,
    ensures
        ms == per_word as nat * length_factor(bytes as nat) / 10,
{
    let factor: u64 = if bytes >= 10 {
        20
    } else if bytes < 3 {
        5
    } else {
        2 * (bytes as u64)
    };
    assert(per_word * factor <= 8_000_000) by (nonlinear_arith)
        requires
            per_word <= 400_000,
            factor <= 20,
    ;
    per_word * factor / 10
}

/// Estimates when each word of `text` is spoken at `speed` thousandths of
/// the normal rate. Words follow one another without gaps from zero; a word
/// of five bytes gets the average time, shorter and longer ones get
/// proportionally less and more, within half and twice the average.
pub fn estimate_word_timings(text: &str, speed: u32) -> (timings: Vec<WordTiming>)
    requires
        speed > 0,
        span_ms(words(text@), speed as nat) <= u64::MAX,
    ensures
        timed(timings@, words(text@), speed as nat),
{
    let chars = chars_of(text);
    let found = split_words(&chars);
    let per_word: u64 = 400_000u64 / (speed as u64);
    let ghost ws = words(text@);
    let ghost rate = speed as nat;
    proof {
        lemma_word_ms_bound(Seq::empty(), rate);
    }
    let mut timings: Vec<WordTiming> = Vec::new();
    let mut current_ms: u64 = 0;
    let mut k: usize = 0;
    while k < found.len()
        invariant
            k <= found.len(),
            crate::text::views(found@) == ws,
            rate == speed as nat,
            rate > 0,
            per_word == ms_per_word(rate),
            per_word <= 400_000,
            span_ms(ws, rate) <= u64::MAX,
            current_ms == span_ms(ws.take(k as int), rate),
            timed(timings@, ws.take(k as int), rate),
        decreases found.len() - k,
    {
        let ghost done = ws.take(k as int);
        let ghost next = ws.take(k + 1);
        assert(next.drop_last() == done);
        assert(next.last() == found@[k as int]@);
        proof {
            lemma_span_bounds(ws, rate, k + 1);
        }
        let word = &found[k];
        let bytes = byte_len(word);
        assert(length_factor(bytes as nat) == length_factor(utf8_len(word@)));
        let duration = word_duration(per_word, bytes);
        let end_ms = current_ms + duration;
        let timing = WordTiming { word: string_of(word), start_ms: current_ms, end_ms };
        let ghost before = timings@;
        timings.push(timing);
        assert(timed(timings@, next, rate)) by {
            assert forall|i: int| 0 <= i < timings@.len() implies {
                &&& (#[trigger] timings@[i]).word@ == next[i]
                &&& timings@[i].start_ms == span_ms(next.take(i), rate)
                &&& timings@[i].end_ms == span_ms(next.take(i + 1), rate)
            } by {
                if i < k {
                    assert(timings@[i] == before[i]);
                    assert(done.take(i) == next.take(i));
                    assert(done.take(i + 1) == next.take(i + 1));
                } else {
                    assert(next.take(i) == done);
                    assert(next.take(i + 1) == next);
                }
            }
        }
        current_ms = end_ms;
        k += 1;
    }
    assert(ws.take(found@.len() as int) == ws);
    timings
}

/// The voices the reader knows: one, which is available exactly when its
/// model was found.
pub fn get_available_voices(model_present: bool) -> (voices: Vec<VoiceInfo>)
    ensures
        voices.len() == 1,
        voices[0].name@ == "Amy (US English)"@,
        voices[0].language@ == "en-US"@,
        voices[0].available == model_present,
{
    let mut voices: Vec<VoiceInfo> = Vec::new();
    voices.push(
        VoiceInfo {
            name: String::from_str("Amy (US English)"),
            language: String::from_str("en-US"),
            available: model_present,
        },
    );
    voices
}

/// Whether the synthesizer can be run: it was found in one of the places the
/// reader looks, or on the search path.
pub fn is_piper_available(found_in_place: bool, found_on_path: bool) -> (available: bool)
    ensures
        available == (found_in_place || found_on_path),
{
    found_in_place || found_on_path
}

/// The index of the first `true` in `flags`, or the length of `flags` if
/// there is none.
pub open spec fn first_true(flags: Seq<bool>) -> nat
    decreases flags.len(),
{
    if flags.len() == 0 || flags[0] {
        0
    } else {
        1 + first_true(flags.skip(1))
    }
}

/// `first_true` points at a `true` with only `false` before it, or past the end.
pub proof fn lemma_first_true(flags: Seq<bool>)
    ensures
        first_true(flags) <= flags.len(),
        first_true(flags) < flags.len() ==> flags[first_true(flags) as int],
        forall|j: int| 0 <= j < first_true(flags) ==> !flags[j],
    decreases flags.len(),
{
    if !(flags.len() == 0 || flags[0]) {
        let rest = flags.skip(1);
        lemma_first_true(rest);
        assert forall|j: int| 0 <= j < first_true(flags) implies !flags[j] by {
            if j > 0 {
                assert(rest[j - 1] == flags[j]);
            }
        }
    }
}

/// Finds the first `true` in `flags`.
pub fn first_existing(flags: &Vec<bool>) -> (k: usize)
    ensures
        k == first_true(flags@),
        k <= flags.len(),
        k < flags.len() ==> flags[k as int],
        forall|j: int| 0 <= j < k ==> !flags[j],
{
    let mut k: usize = 0;
    assert(flags@.skip(0) == flags@);
    while k < flags.len() && !flags[k]
        invariant
            k <= flags.len(),
            first_true(flags@) == k + first_true(flags@.skip(k as int)),
        decreases flags.len() - k,
    {
        assert(flags@.skip(k as int).skip(1) == flags@.skip(k + 1));
        k += 1;
    }
    proof {
        lemma_first_true(flags@);
    }
    k
}

/// The one among `candidates` whose flag in `exists` is the first that is
/// set, or `fallback` if no candidate has its flag set.
pub open spec fn selected<P>(candidates: Seq<P>, exists: Seq<bool>, fallback: P) -> P {
    if first_true(exists) < exists.len() && first_true(exists) < candidates.len() {
        candidates[first_true(exists) as int]
    } else {
        fallback
    }
}

/// The places where the synthesizer is looked for, in order, each as the
/// components of a path: beside the program, three and four directories
/// above it, under the working directory, and at one fixed location.
pub open spec fn piper_candidates(exe_dir: Seq<char>) -> Seq<Seq<Seq<char>>> {
    seq![
        seq![exe_dir, "piper"@, "piper.exe"@],
        seq![exe_dir, ".."@, ".."@, ".."@, "piper"@, "piper.exe"@],
        seq![exe_dir, ".."@, ".."@, ".."@, ".."@, "piper"@, "piper.exe"@],
        seq!["piper"@, "piper.exe"@],
        seq!["F:\\Programming\\PdfAudio\\piper\\piper.exe"@],
    ]
}

/// The places where the voice model is looked for, in the same order as the
/// synthesizer.
pub open spec fn voice_model_candidates(exe_dir: Seq<char>) -> Seq<Seq<Seq<char>>> {
    seq![
        seq![exe_dir, "piper"@, "voices"@, "en_US-amy-medium.onnx"@],
        seq![exe_dir, ".."@, ".."@, ".."@, "piper"@, "voices"@, "en_US-amy-medium.onnx"@],
        seq![exe_dir, ".."@, ".."@, ".."@, ".."@, "piper"@, "voices"@, "en_US-amy-medium.onnx"@],
        seq!["piper"@, "voices"@, "en_US-amy-medium.onnx"@],
        seq!["F:\\Programming\\PdfAudio\\piper\\voices\\en_US-amy-medium.onnx"@],
    ]
}

/// The path components held by each of `paths`.
pub open spec fn path_views(paths: Seq<Vec<String>>) -> Seq<Seq<Seq<char>>> {
    paths.map_values(|p: Vec<String>| string_views(p@))
}

fn push_part(path: &mut Vec<String>, part: &str)
    ensures
        string_views(final(path)@) == string_views(old(path)@).push(part@),
{
    path.push(String::from_str(part));
    assert(string_views(path@) == string_views(old(path)@).push(part@));
}

/// The path that starts at `base`, climbs `ups` directories, and then
/// descends through `tail`; without a `base` it is `tail` alone.
fn path_from(base: Option<&str>, ups: usize, tail: &Vec<&str>) -> (path: Vec<String>)
    ensures
        string_views(path@) == (match base {
            Some(b) => seq![b@],
            None => Seq::<Seq<char>>::empty(),
        }) + Seq::new(ups as nat, |i: int| ".."@) + tail@.map_values(|t: &str| t@),
{
    let mut path: Vec<String> = Vec::new();
    assert(string_views(path@) == Seq::<Seq<char>>::empty());
    match base {
        Some(b) => {
            push_part(&mut path, b);
        },
        None => {},
    }
    let ghost head = string_views(path@);
    let mut i: usize = 0;
    while i < ups
        invariant
            i <= ups,
            string_views(path@) == head + Seq::new(i as nat, |i: int| ".."@),
        decreases ups - i,
    {
        push_part(&mut path, "..");
        i += 1;
    }
    let ghost climbed = string_views(path@);
    let mut k: usize = 0;
    while k < tail.len()
        invariant
            k <= tail.len(),
            string_views(path@) == climbed + tail@.map_values(|t: &str| t@).take(k as int),
        decreases tail.len() - k,
    {
        push_part(&mut path, tail[k]);
        k += 1;
    }
    assert(tail@.map_values(|t: &str| t@).take(tail@.len() as int) == tail@.map_values(
        |t: &str| t@,
    ));
    path
}

/// The five places where something installed under `tail` is looked for,
/// the last being the fixed location `fixed`.
fn places(exe_dir: &str, tail: &Vec<&str>, fixed: &str) -> (paths: Vec<Vec<String>>)
    ensures
        paths.len() == 5,
        string_views(paths[0]@) == seq![exe_dir@] + tail@.map_values(|t: &str| t@),
        string_views(paths[1]@) == seq![exe_dir@, ".."@, ".."@, ".."@] + tail@.map_values(
            |t: &str| t@,
        ),
        string_views(paths[2]@) == seq![exe_dir@, ".."@, ".."@, ".."@, ".."@] + tail@.map_values(
            |t: &str| t@,
        ),
        string_views(paths[3]@) == tail@.map_values(|t: &str| t@),
        string_views(paths[4]@) == seq![fixed@],
{
    let empty: Vec<&str> = Vec::new();
    let mut paths: Vec<Vec<String>> = Vec::new();
    paths.push(path_from(Some(exe_dir), 0, tail));
    paths.push(path_from(Some(exe_dir), 3, tail));
    paths.push(path_from(Some(exe_dir), 4, tail));
    paths.push(path_from(None, 0, tail));
    paths.push(path_from(Some(fixed), 0, &empty));
    proof {
        let dots3 = Seq::new(3, |i: int| ".."@);
        let dots4 = Seq::new(4, |i: int| ".."@);
        let dots0 = Seq::new(0, |i: int| ".."@);
        assert(seq![exe_dir@] + dots3 == seq![exe_dir@, ".."@, ".."@, ".."@]);
        assert(seq![exe_dir@] + dots4 == seq![exe_dir@, ".."@, ".."@, ".."@, ".."@]);
        assert(seq![exe_dir@] + dots0 == seq![exe_dir@]);
        assert(Seq::<Seq<char>>::empty() + dots0 + tail@.map_values(|t: &str| t@)
            == tail@.map_values(|t: &str| t@));
        assert(seq![fixed@] + dots0 + empty@.map_values(|t: &str| t@) == seq![fixed@]);
    }
    paths
}

/// The places where the synthesizer is looked for, for a program that lies
/// in `exe_dir`.
pub fn piper_places(exe_dir: &str) -> (paths: Vec<Vec<String>>)
    ensures
        path_views(paths@) == piper_candidates(exe_dir@),
{
    let mut tail: Vec<&str> = Vec::new();
    tail.push("piper");
    tail.push("piper.exe");
    let paths = places(exe_dir, &tail, "F:\\Programming\\PdfAudio\\piper\\piper.exe");
    proof {
        let t = tail@.map_values(|t: &str| t@);
        assert(t == seq!["piper"@, "piper.exe"@]);
        assert(seq![exe_dir@] + t == seq![exe_dir@, "piper"@, "piper.exe"@]);
        assert(seq![exe_dir@, ".."@, ".."@, ".."@] + t == seq![
            exe_dir@,
            ".."@,
            ".."@,
            ".."@,
            "piper"@,
            "piper.exe"@,
        ]);
        assert(seq![exe_dir@, ".."@, ".."@, ".."@, ".."@] + t == seq![
            exe_dir@,
            ".."@,
            ".."@,
            ".."@,
            ".."@,
            "piper"@,
            "piper.exe"@,
        ]);
        assert(path_views(paths@) =~= piper_candidates(exe_dir@));
    }
    paths
}

/// The places where the voice model is looked for, for a program that lies
/// in `exe_dir`.
pub fn voice_model_places(exe_dir: &str) -> (paths: Vec<Vec<String>>)
    ensures
        path_views(paths@) == voice_model_candidates(exe_dir@),
{
    let mut tail: Vec<&str> = Vec::new();
    tail.push("piper");
    tail.push("voices");
    tail.push("en_US-amy-medium.onnx");
    let paths = places(
        exe_dir,
        &tail,
        "F:\\Programming\\PdfAudio\\piper\\voices\\en_US-amy-medium.onnx",
    );
    proof {
        let t = tail@.map_values(|t: &str| t@);
        assert(t == seq!["piper"@, "voices"@, "en_US-amy-medium.onnx"@]);
        assert(seq![exe_dir@] + t == seq![exe_dir@, "piper"@, "voices"@, "en_US-amy-medium.onnx"@]);
        assert(seq![exe_dir@, ".."@, ".."@, ".."@] + t == seq![
            exe_dir@,
            ".."@,
            ".."@,
            ".."@,
            "piper"@,
            "voices"@,
            "en_US-amy-medium.onnx"@,
        ]);
        assert(seq![exe_dir@, ".."@, ".."@, ".."@, ".."@] + t == seq![
            exe_dir@,
            ".."@,
            ".."@,
            ".."@,
            ".."@,
            "piper"@,
            "voices"@,
            "en_US-amy-medium.onnx"@,
        ]);
        assert(path_views(paths@) =~= voice_model_candidates(exe_dir@));
    }
    paths
}

/// Picks the path at index `k` of `paths` if `found` is set and there is
/// such an index, and the single-component path `fallback` otherwise.
fn pick(paths: &Vec<Vec<String>>, found: bool, k: usize, fallback: &str) -> (path: Vec<String>)
    ensures
        string_views(path@) == if found && k < paths.len() {
            string_views(paths[k as int]@)
        } else {
            seq![fallback@]
        },
{
    let mut path: Vec<String> = Vec::new();
    assert(string_views(path@) == Seq::<Seq<char>>::empty());
    if found && k < paths.len() {
        let source = &paths[k];
        let mut i: usize = 0;
        while i < source.len()
            invariant
                i <= source.len(),
                string_views(path@) == string_views(source@).take(i as int),
            decreases source.len() - i,
        {
            push_part(&mut path, source[i].as_str());
            assert(string_views(source@).take(i + 1) == string_views(source@).take(
                i as int,
            ).push(source@[i as int]@));
            i += 1;
        }
        assert(string_views(source@).take(source@.len() as int) == string_views(source@));
    } else {
        push_part(&mut path, fallback);
    }
    path
}

/// The path of the synthesizer, as components: the first of
/// `piper_candidates` that exists, or plain `piper`, to be found on the
/// search path. `exists` tells, for each candidate in order, whether a file
/// is there; a candidate without a flag counts as absent.
pub fn get_piper_path(exe_dir: &str, exists: &Vec<bool>) -> (path: Vec<String>)
    ensures
        string_views(path@) == selected(piper_candidates(exe_dir@), exists@, seq!["piper"@]),
{
    let paths = piper_places(exe_dir);
    let k = first_existing(exists);
    assert(path_views(paths@).len() == 5);
    assert(k < 5 ==> path_views(paths@)[k as int] == string_views(paths[k as int]@));
    pick(&paths, k < exists.len(), k, "piper")
}

/// The path of the voice model, as components: the first of
/// `voice_model_candidates` that exists, or the relative path
/// `piper/voices/en_US-amy-medium.onnx`. `exists` is read as in
/// `get_piper_path`.
pub fn get_voice_model_path(exe_dir: &str, exists: &Vec<bool>) -> (path: Vec<String>)
    ensures
        string_views(path@) == selected(
            voice_model_candidates(exe_dir@),
            exists@,
            seq!["piper/voices/en_US-amy-medium.onnx"@],
        ),
{
    let paths = voice_model_places(exe_dir);
    let k = first_existing(exists);
    assert(path_views(paths@).len() == 5);
    assert(k < 5 ==> path_views(paths@)[k as int] == string_views(paths[k as int]@));
    pick(&paths, k < exists.len(), k, "piper/voices/en_US-amy-medium.onnx")
}

/// How a run of the synthesizer ended.
#[derive(Debug, Clone)]
pub enum SynthesisOutcome {
    /// The synthesizer was found neither at `looked_for` nor on the search path.
    Missing { looked_for: String },
    /// The process could not be started.
    StartFailed(String),
    /// The text could not be written to the process.
    WriteFailed(String),
    /// Waiting for the process failed.
    WaitFailed(String),
    /// The process ran and reported failure; this is what it wrote to its
    /// error stream.
    Failed(String),
    /// The process ran and reported success.
    Done,
}

/// The error message for an outcome, or `None` for success.
pub open spec fn failure_text(outcome: SynthesisOutcome) -> Option<Seq<char>> {
    match outcome {
        SynthesisOutcome::Missing { looked_for } => Some(
            "Piper TTS not found. Please download it from https://github.com/rhasspy/piper/releases and place it in the 'piper' folder. Looking for: "@
                + looked_for@,
        ),
        SynthesisOutcome::StartFailed(detail) => Some("Failed to start Piper: "@ + detail@),
        SynthesisOutcome::WriteFailed(detail) => Some(
            "Failed to write to Piper stdin: "@ + detail@,
        ),
        SynthesisOutcome::WaitFailed(detail) => Some("Failed to wait for Piper: "@ + detail@),
        SynthesisOutcome::Failed(stderr) => Some("Piper failed: "@ + stderr@),
        SynthesisOutcome::Done => None,
    }
}

fn failure(prefix: &str, detail: &str) -> (e: TtsError)
    ensures
        e.message@ == prefix@ + detail@,
{
    let mut message = String::from_str(prefix);
    message.append(detail);
    TtsError { message }
}

/// Turns the outcome of a synthesis run for `text`, written to
/// `output_path`, into its result. Every failure is reported with its own
/// message; success yields the path, the word timings at normal speed, and
/// as duration the end of the last word, zero if there is none.
pub fn generate_audio(text: &str, output_path: &str, outcome: SynthesisOutcome) -> (r: Result<
    TtsResult,
    TtsError,
>)
    requires
        outcome is Done ==> span_ms(words(text@), 1000) <= u64::MAX,
    ensures
        match failure_text(outcome) {
            Some(message) => r matches Err(e) && e.message@ == message,
            None => r matches Ok(done) && {
                &&& done.audio_path@ == output_path@
                &&& timed(done.word_timings@, words(text@), 1000)
                &&& done.duration_ms == span_ms(words(text@), 1000)
            },
        },
{
    match outcome {
        SynthesisOutcome::Missing { looked_for } => Err(
            failure(
                "Piper TTS not found. Please download it from https://github.com/rhasspy/piper/releases and place it in the 'piper' folder. Looking for: ",
                looked_for.as_str(),
            ),
        ),
        SynthesisOutcome::StartFailed(detail) => Err(
            failure("Failed to start Piper: ", detail.as_str()),
        ),
        SynthesisOutcome::WriteFailed(detail) => Err(
            failure("Failed to write to Piper stdin: ", detail.as_str()),
        ),
        SynthesisOutcome::WaitFailed(detail) => Err(
            failure("Failed to wait for Piper: ", detail.as_str()),
        ),
        SynthesisOutcome::Failed(stderr) => Err(failure("Piper failed: ", stderr.as_str())),
        SynthesisOutcome::Done => {
            let word_timings = estimate_word_timings(text, 1000);
            let n = word_timings.len();
            let duration_ms = if n == 0 {
                0
            } else {
                word_timings[n - 1].end_ms
            };
            proof {
                let ws = words(text@);
                assert(ws.take(ws.len() as int) == ws);
            }
            Ok(TtsResult { audio_path: String::from_str(output_path), word_timings, duration_ms })
        },
    }
}

} // verus!
