//! Speech to text by an outside script: what goes into it and what its replies mean.

use crate::paths;
use crate::paths::{join_path, path_parent};
use crate::text;
use crate::text::{chars_of, push_text, to_text, trim_of};
use vstd::prelude::*;
use vstd::utf8;

verus! {

/// Why a recording could not be turned into text.
#[derive(Debug)]
pub enum TranscriberError {
    Transcription(String),
    WavWrite(String),
}

impl TranscriberError {
    /// What the error says.
    pub open spec fn says(self) -> Seq<char> {
        match self {
            TranscriberError::Transcription(e) => "Transcription failed: "@ + e@,
            TranscriberError::WavWrite(e) => "WAV write failed: "@ + e@,
        }
    }

    /// The error in words.
    pub fn message(&self) -> (msg: String)
        ensures
            msg@ == self.says(),
    {
        match self {
            TranscriberError::Transcription(e) => {
                let mut msg = "Transcription failed: ".to_owned();
                push_text(&mut msg, e.as_str());
                msg
            },
            TranscriberError::WavWrite(e) => {
                let mut msg = "WAV write failed: ".to_owned();
                push_text(&mut msg, e.as_str());
                msg
            },
        }
    }
}

/// What came of a run of an outside program.
pub enum ProgramRun {
    /// It could not be started, with the reason.
    NotStarted(String),
    /// It ended, with what it wrote.
    Ended { success: bool, stdout: Vec<u8>, stderr: Vec<u8> },
}

/// Text that `String::from_utf8_lossy` makes of bytes.
pub uninterp spec fn lossy_text(bytes: Seq<u8>) -> Seq<char>;

/// Calls `String::from_utf8_lossy`. Bytes that are valid UTF-8 give the text that they encode.
/// How parts that are not valid are replaced is left to the name.
#[verifier::external_body]
fn from_utf8_lossy(bytes: &Vec<u8>) -> (s: String)
    ensures
        s@ == lossy_text(bytes@),
        utf8::valid_utf8(bytes@) ==> s@ == utf8::decode_utf8(bytes@),
{
    String::from_utf8_lossy(bytes).into_owned()
}

/// Speech to text. There is no model to load; the script does that.
pub struct Transcriber;

/// What a check for the speech library means: `None` where it is there, else the error.
pub open spec fn check_error(success: bool, stderr: Seq<char>) -> Option<Seq<char>> {
    if success {
        None
    } else {
        Some(
            "faster-whisper not installed. Run: pip install faster-whisper\n"@ + text::trim(
                stderr,
            ),
        )
    }
}

/// What a run of the script gives: the text without the white space around it, or the error.
pub open spec fn script_outcome(success: bool, stdout: Seq<char>, stderr: Seq<char>) -> Result<
    Seq<char>,
    Seq<char>,
> {
    if success {
        Ok(text::trim(stdout))
    } else {
        Err("stt.py failed: "@ + text::trim(stderr))
    }
}

/// `prefix` with `tail` behind it.
fn joined(prefix: &str, tail: &str) -> (s: String)
    ensures
        s@ == prefix@ + tail@,
{
    let mut s = prefix.to_owned();
    push_text(&mut s, tail);
    s
}

/// A text without the white space around it.
fn trimmed(s: &String) -> (r: String)
    ensures
        r@ == text::trim(s@),
{
    to_text(&trim_of(&chars_of(s.as_str())))
}

impl Transcriber {
    /// The transcriber, if the check for Python and the speech library went well.
    pub fn new(check: &ProgramRun) -> (r: Result<Self, TranscriberError>)
        ensures
            match *check {
                ProgramRun::NotStarted(e) => r matches Err(TranscriberError::Transcription(msg))
                    && msg@ == "python3 not found: "@ + e@,
                ProgramRun::Ended { success, stdout, stderr } => match check_error(
                    success,
                    lossy_text(stderr@),
                ) {
                    None => r is Ok,
                    Some(says) => r matches Err(TranscriberError::Transcription(msg)) && msg@
                        == says,
                },
            },
    {
        match check {
            ProgramRun::NotStarted(e) => Err(
                TranscriberError::Transcription(joined("python3 not found: ", e.as_str())),
            ),
            ProgramRun::Ended { success, stdout, stderr } => {
                match Transcriber::check_failure(*success, from_utf8_lossy(stderr)) {
                    None => Ok(Transcriber),
                    Some(msg) => Err(TranscriberError::Transcription(msg)),
                }
            },
        }
    }

    /// The error of a check that ended with the given error output.
    pub fn check_failure(success: bool, stderr: String) -> (r: Option<String>)
        ensures
            text::opt_text(r) == check_error(success, stderr@),
    {
        if success {
            None
        } else {
            Some(
                joined(
                    "faster-whisper not installed. Run: pip install faster-whisper\n",
                    trimmed(&stderr).as_str(),
                ),
            )
        }
    }

    /// The text of a recording, from the run of the script on it.
    pub fn transcribe(&self, run: &ProgramRun) -> (r: Result<String, TranscriberError>)
        ensures
            match *run {
                ProgramRun::NotStarted(e) => r matches Err(TranscriberError::Transcription(msg))
                    && msg@ == "Failed to run stt.py: "@ + e@,
                ProgramRun::Ended { success, stdout, stderr } => match script_outcome(
                    success,
                    lossy_text(stdout@),
                    lossy_text(stderr@),
                ) {
                    Ok(said) => r matches Ok(s) && s@ == said,
                    Err(says) => r matches Err(TranscriberError::Transcription(msg)) && msg@
                        == says,
                },
            },
    {
        match run {
            ProgramRun::NotStarted(e) => Err(
                TranscriberError::Transcription(joined("Failed to run stt.py: ", e.as_str())),
            ),
            ProgramRun::Ended { success, stdout, stderr } => {
                match Transcriber::script_result(
                    *success,
                    from_utf8_lossy(stdout),
                    from_utf8_lossy(stderr),
                ) {
                    Ok(s) => Ok(s),
                    Err(msg) => Err(TranscriberError::Transcription(msg)),
                }
            },
        }
    }

    /// The text or error of a run of the script with the given output.
    pub fn script_result(success: bool, stdout: String, stderr: String) -> (r: Result<
        String,
        String,
    >)
        ensures
            match script_outcome(success, stdout@, stderr@) {
                Ok(said) => r matches Ok(s) && s@ == said,
                Err(says) => r matches Err(msg) && msg@ == says,
            },
    {
        if success {
            Ok(trimmed(&stdout))
        } else {
            Err(joined("stt.py failed: ", trimmed(&stderr).as_str()))
        }
    }
}

/// The script below a directory.
pub open spec fn script_below(dir: Seq<char>) -> Seq<char> {
    paths::joined(paths::joined(dir, "scripts"@), "stt.py"@)
}

/// The places where the script is looked for, in order: below the directory of the executable,
/// below the one two levels up, below the working directory.
pub open spec fn script_places(dir: Option<Seq<char>>, two_up: Option<Seq<char>>) -> Seq<
    Seq<char>,
> {
    let own = match dir {
        Some(d) => seq![script_below(d)],
        None => seq![],
    };
    let up = match two_up {
        Some(d) => seq![script_below(d)],
        None => seq![],
    };
    own + up + seq!["scripts/stt.py"@]
}

/// The directory of an executable.
pub open spec fn exe_dir(exe: Seq<char>) -> Seq<char> {
    match paths::parent_of(exe) {
        Some(dir) => dir,
        None => "."@,
    }
}

/// The directory two levels above a directory.
pub open spec fn two_above(dir: Seq<char>) -> Option<Seq<char>> {
    match paths::parent_of(dir) {
        Some(up) => paths::parent_of(up),
        None => None,
    }
}

/// The script below a directory.
fn script_in(dir: &str) -> (r: String)
    ensures
        r@ == script_below(dir@),
{
    let scripts = join_path(dir, "scripts");
    join_path(scripts.as_str(), "stt.py")
}

/// The places where the script is looked for, in order, with the directory of the executable
/// and the one two levels above it, where they are known.
pub fn script_candidates(dir: &Option<String>, two_up: &Option<String>) -> (places: Vec<String>)
    ensures
        text::strings(places@) == script_places(text::opt_text(*dir), text::opt_text(*two_up)),
{
    let mut places: Vec<String> = Vec::new();
    match dir {
        Some(d) => {
            places.push(script_in(d.as_str()));
        },
        None => {},
    }
    match two_up {
        Some(d) => {
            places.push(script_in(d.as_str()));
        },
        None => {},
    }
    places.push("scripts/stt.py".to_owned());
    assert(text::strings(places@) =~= script_places(
        text::opt_text(*dir),
        text::opt_text(*two_up),
    ));
    places
}

/// The places where the script is looked for, in order, for a given executable. The last one is
/// also taken where none of them exists.
pub fn stt_candidates(exe: &Option<String>) -> (places: Vec<String>)
    ensures
        text::strings(places@) == match *exe {
            Some(path) => script_places(Some(exe_dir(path@)), two_above(exe_dir(path@))),
            None => script_places(None, None),
        },
{
    match exe {
        Some(path) => {
            let dir = match path_parent(path.as_str()) {
                Some(dir) => dir,
                None => ".".to_owned(),
            };
            let two_up = match path_parent(dir.as_str()) {
                Some(up) => path_parent(up.as_str()),
                None => None,
            };
            script_candidates(&Some(dir), &two_up)
        },
        None => script_candidates(&None, &None),
    }
}

/// The index of the first place that exists, the last one where none does.
pub fn find_stt_script(present: &Vec<bool>) -> (i: usize)
    requires
        present.len() > 0,
    ensures
        i < present.len(),
        present@[i as int] || i == present.len() - 1,
        forall|j: int| 0 <= j < i ==> !(#[trigger] present@[j]),
{
    let mut i: usize = 0;
    while i < present.len() - 1 && !present[i]
        invariant
            i < present.len(),
            forall|j: int| 0 <= j < i ==> !(#[trigger] present@[j]),
        decreases present.len() - i,
    {
        i = i + 1;
    }
    i
}

/// The two bytes of a number, low byte first.
pub open spec fn le16(n: int) -> Seq<u8> {
    seq![(n % 256) as u8, (n / 256 % 256) as u8]
}

/// The four bytes of a number, low byte first.
pub open spec fn le32(n: int) -> Seq<u8> {
    le16(n) + le16(n / 65536)
}

/// The two bytes of each sample, negative ones in two's complement.
pub open spec fn pcm_bytes(samples: Seq<i16>) -> Seq<u8>
    decreases samples.len(),
{
    if samples.len() == 0 {
        seq![]
    } else {
        pcm_bytes(samples.drop_last()) + le16(samples.last() as int % 65536)
    }
}

/// A WAV file of 16-bit mono samples.
pub open spec fn wav_file(samples: Seq<i16>, sample_rate: u32) -> Seq<u8> {
    let data_size = 2 * samples.len() as int;
    seq![82u8, 73u8, 70u8, 70u8] + le32(36 + data_size) + seq![87u8, 65u8, 86u8, 69u8] + seq![
        102u8,
        109u8,
        116u8,
        32u8,
    ] + le32(16) + le16(1) + le16(1) + le32(sample_rate as int) + le32(2 * sample_rate) + le16(2)
        + le16(16) + seq![100u8, 97u8, 116u8, 97u8] + le32(data_size) + pcm_bytes(samples)
}

/// The bytes of the samples take two each, so the whole file is a header of 44 bytes and them.
pub proof fn wav_size(samples: Seq<i16>, sample_rate: u32)
    ensures
        pcm_bytes(samples).len() == 2 * samples.len(),
        wav_file(samples, sample_rate).len() == 44 + 2 * samples.len(),
    decreases samples.len(),
{
    if samples.len() > 0 {
        wav_size(samples.drop_last(), sample_rate);
    }
}

/// Appends the two bytes of a number.
fn push_le16(bytes: &mut Vec<u8>, n: u32)
    ensures
        final(bytes)@ == old(bytes)@ + le16(n as int),
{
    bytes.push((n % 256) as u8);
    bytes.push((n / 256 % 256) as u8);
    assert(bytes@ =~= old(bytes)@ + le16(n as int));
}

/// Appends the four bytes of a number.
fn push_le32(bytes: &mut Vec<u8>, n: u32)
    ensures
        final(bytes)@ == old(bytes)@ + le32(n as int),
{
    push_le16(bytes, n);
    push_le16(bytes, n / 65536);
    assert(bytes@ =~= old(bytes)@ + le32(n as int));
}

/// Appends four bytes.
fn push_tag(bytes: &mut Vec<u8>, a: u8, b: u8, c: u8, d: u8)
    ensures
        final(bytes)@ == old(bytes)@ + seq![a, b, c, d],
{
    bytes.push(a);
    bytes.push(b);
    bytes.push(c);
    bytes.push(d);
    assert(bytes@ =~= old(bytes)@ + seq![a, b, c, d]);
}

/// A sample in two's complement.
fn sample_word(v: i16) -> (n: u32)
    ensures
        n == v as int % 65536,
{
    if v < 0 {
        (v as i32 + 65536) as u32
    } else {
        v as u32
    }
}

/// Appends the two bytes of each sample.
fn push_samples(bytes: &mut Vec<u8>, samples: &Vec<i16>)
    ensures
        final(bytes)@ == old(bytes)@ + pcm_bytes(samples@),
{
    let mut i: usize = 0;
    assert(bytes@ =~= old(bytes)@ + pcm_bytes(samples@.take(0)));
    while i < samples.len()
        invariant
            i <= samples.len(),
            bytes@ == old(bytes)@ + pcm_bytes(samples@.take(i as int)),
        decreases samples.len() - i,
    {
        push_le16(bytes, sample_word(samples[i]));
        assert(samples@.take(i + 1).drop_last() =~= samples@.take(i as int));
        assert(bytes@ =~= old(bytes)@ + pcm_bytes(samples@.take(i + 1)));
        i = i + 1;
    }
    assert(samples@.take(samples@.len() as int) =~= samples@);
}

/// The contents of a 16-bit PCM WAV file with mono samples.
pub fn write_wav(samples: &Vec<i16>, sample_rate: u32) -> (bytes: Vec<u8>)
    requires
        36 + 2 * samples.len() <= u32::MAX,
        2 * sample_rate <= u32::MAX,
    ensures
        bytes@ == wav_file(samples@, sample_rate),
{
    let data_size: u32 = samples.len() as u32 * 2;
    let mut bytes: Vec<u8> = Vec::new();
    push_tag(&mut bytes, 82, 73, 70, 70);
    push_le32(&mut bytes, 36 + data_size);
    push_tag(&mut bytes, 87, 65, 86, 69);
    push_tag(&mut bytes, 102, 109, 116, 32);
    push_le32(&mut bytes, 16);
    push_le16(&mut bytes, 1);
    push_le16(&mut bytes, 1);
    push_le32(&mut bytes, sample_rate);
    push_le32(&mut bytes, sample_rate * 2);
    push_le16(&mut bytes, 2);
    push_le16(&mut bytes, 16);
    push_tag(&mut bytes, 100, 97, 116, 97);
    push_le32(&mut bytes, data_size);
    assert(bytes@ + pcm_bytes(samples@) =~= wav_file(samples@, sample_rate));
    push_samples(&mut bytes, samples);
    bytes
}

/// The number that two bytes stand for, low byte first.
pub open spec fn word_at(bytes: Seq<u8>, i: int) -> int {
    bytes[i] + 256 * bytes[i + 1]
}

/// The number that four bytes stand for, low byte first.
pub open spec fn long_at(bytes: Seq<u8>, i: int) -> int {
    word_at(bytes, i) + 65536 * word_at(bytes, i + 2)
}

proof fn words_are_read_back(n: int)
    requires
        0 <= n < 65536,
    ensures
        le16(n).len() == 2,
        word_at(le16(n), 0) == n,
{
}

proof fn longs_are_read_back(n: int)
    requires
        0 <= n <= u32::MAX,
    ensures
        le32(n).len() == 4,
        long_at(le32(n), 0) == n,
{
}

/// The header of a WAV file: its tags, the sizes of the file behind the first eight bytes and of
/// the samples, and the format: PCM, one channel, the sample rate, bytes per second and per
/// sample, and bits per sample.
#[verifier::spinoff_prover]
#[verifier::rlimit(40)]
pub proof fn wav_header(samples: Seq<i16>, rate: u32)
    requires
        36 + 2 * samples.len() <= u32::MAX,
        2 * rate <= u32::MAX,
    ensures
        ({
            let f = wav_file(samples, rate);
            &&& f.subrange(0, 4) == seq!['R' as u8, 'I' as u8, 'F' as u8, 'F' as u8]
            &&& long_at(f, 4) == f.len() - 8
            &&& f.subrange(8, 16) == seq![
                'W' as u8,
                'A' as u8,
                'V' as u8,
                'E' as u8,
                'f' as u8,
                'm' as u8,
                't' as u8,
                ' ' as u8,
            ]
            &&& long_at(f, 16) == 16
            &&& word_at(f, 20) == 1 && word_at(f, 22) == 1
            &&& long_at(f, 24) == rate
            &&& long_at(f, 28) == 2 * rate
            &&& word_at(f, 32) == 2 && word_at(f, 34) == 16
            &&& f.subrange(36, 40) == seq!['d' as u8, 'a' as u8, 't' as u8, 'a' as u8]
            &&& long_at(f, 40) == 2 * samples.len()
            &&& long_at(f, 40) == f.len() - 44
        }),
{
    wav_size(samples, rate);
    let f = wav_file(samples, rate);
    longs_are_read_back(36 + 2 * samples.len() as int);
    longs_are_read_back(16);
    longs_are_read_back(rate as int);
    longs_are_read_back(2 * rate);
    longs_are_read_back(2 * samples.len() as int);
    assert(f.subrange(0, 4) =~= seq!['R' as u8, 'I' as u8, 'F' as u8, 'F' as u8]);
    assert(f.subrange(8, 16) =~= seq![
        'W' as u8,
        'A' as u8,
        'V' as u8,
        'E' as u8,
        'f' as u8,
        'm' as u8,
        't' as u8,
        ' ' as u8,
    ]);
    assert(f.subrange(36, 40) =~= seq!['d' as u8, 'a' as u8, 't' as u8, 'a' as u8]);
    assert(f.subrange(4, 8) =~= le32(36 + 2 * samples.len() as int));
    assert(f.subrange(16, 20) =~= le32(16));
    assert(f.subrange(24, 28) =~= le32(rate as int));
    assert(f.subrange(28, 32) =~= le32(2 * rate));
    assert(f.subrange(40, 44) =~= le32(2 * samples.len() as int));
    assert forall|i: int, k: int| 0 <= i && 0 <= k < 4 && i + 4 <= f.len() implies f[i + k]
        == #[trigger] f.subrange(i, i + 4)[k] by {}
    assert(f[4] == f.subrange(4, 8)[0] && f[5] == f.subrange(4, 8)[1] && f[6] == f.subrange(
        4,
        8,
    )[2] && f[7] == f.subrange(4, 8)[3]);
    assert(f[24] == f.subrange(24, 28)[0] && f[25] == f.subrange(24, 28)[1] && f[26] == f.subrange(
        24,
        28,
    )[2] && f[27] == f.subrange(24, 28)[3]);
    assert(f[28] == f.subrange(28, 32)[0] && f[29] == f.subrange(28, 32)[1] && f[30] == f.subrange(
        28,
        32,
    )[2] && f[31] == f.subrange(28, 32)[3]);
    assert(f[40] == f.subrange(40, 44)[0] && f[41] == f.subrange(40, 44)[1] && f[42] == f.subrange(
        40,
        44,
    )[2] && f[43] == f.subrange(40, 44)[3]);
}

/// Every sample stands behind the header in two bytes, low byte first, negative ones in two's
/// complement.
pub proof fn wav_samples(samples: Seq<i16>, rate: u32, i: int)
    requires
        0 <= i < samples.len(),
    ensures
        word_at(wav_file(samples, rate), 44 + 2 * i) == if samples[i] < 0 {
            samples[i] + 65536
        } else {
            samples[i] as int
        },
{
    wav_size(samples, rate);
    samples_are_read_back(samples, i, rate);
    let f = wav_file(samples, rate);
    let p = pcm_bytes(samples);
    assert(f.skip(44) =~= p);
    assert(f[44 + 2 * i] == f.skip(44)[2 * i]);
    assert(f[44 + 2 * i + 1] == f.skip(44)[2 * i + 1]);
}

proof fn samples_are_read_back(samples: Seq<i16>, i: int, rate: u32)
    requires
        0 <= i < samples.len(),
    ensures
        word_at(pcm_bytes(samples), 2 * i) == if samples[i] < 0 {
            samples[i] + 65536
        } else {
            samples[i] as int
        },
    decreases samples.len(),
{
    let front = samples.drop_last();
    wav_size(front, rate);
    let before = pcm_bytes(front);
    let last = le16(samples.last() as int % 65536);
    assert(pcm_bytes(samples) == before + last);
    if i < front.len() {
        samples_are_read_back(front, i, rate);
        assert((before + last)[2 * i] == before[2 * i]);
        assert((before + last)[2 * i + 1] == before[2 * i + 1]);
    } else {
        sample_is_read_back(samples.last());
        assert((before + last)[2 * i] == last[0]);
        assert((before + last)[2 * i + 1] == last[1]);
    }
}

proof fn sample_is_read_back(v: i16)
    ensures
        word_at(le16(v as int % 65536), 0) == if v < 0 {
            v + 65536
        } else {
            v as int
        },
{
    words_are_read_back(v as int % 65536);
}

/// The script is looked for below the directory of the executable, then below the one two levels
/// up, and at last below the working directory.
pub proof fn scripts_have_their_places(dir: Seq<char>, up: Seq<char>)
    requires
        dir.len() > 0,
        dir.last() != '/',
        up.len() > 0,
        up.last() != '/',
    ensures
        script_places(Some(dir), Some(up)) == seq![
            dir + "/scripts/stt.py"@,
            up + "/scripts/stt.py"@,
            "scripts/stt.py"@,
        ],
        script_places(Some(dir), None) == seq![dir + "/scripts/stt.py"@, "scripts/stt.py"@],
        script_places(None, None) == seq!["scripts/stt.py"@],
{
    scripts_are_below(dir);
    scripts_are_below(up);
    assert(script_places(Some(dir), Some(up)) =~= seq![
        dir + "/scripts/stt.py"@,
        up + "/scripts/stt.py"@,
        "scripts/stt.py"@,
    ]);
    assert(script_places(Some(dir), None) =~= seq![
        dir + "/scripts/stt.py"@,
        "scripts/stt.py"@,
    ]);
    assert(script_places(None, None) =~= seq!["scripts/stt.py"@]);
}

proof fn scripts_are_below(dir: Seq<char>)
    requires
        dir.len() > 0,
        dir.last() != '/',
    ensures
        script_below(dir) == dir + "/scripts/stt.py"@,
{
    reveal_strlit("/scripts/stt.py");
    reveal_strlit("scripts");
    reveal_strlit("stt.py");
    let s = paths::joined(dir, "scripts"@);
    assert(s =~= dir + seq!['/'] + "scripts"@);
    assert(s.last() == 's');
    assert(script_below(dir) =~= dir + "/scripts/stt.py"@);
}

/// A run of the script that went well gives what it wrote, without the white space around it,
/// and one that did not gives what it wrote of its error; a check for the speech library that
/// went well gives no error.
pub proof fn runs_of_the_script(stdout: Seq<char>, stderr: Seq<char>)
    ensures
        script_outcome(true, stdout, stderr) == Ok::<Seq<char>, Seq<char>>(text::trim(stdout)),
        script_outcome(false, stdout, stderr) == Err::<Seq<char>, Seq<char>>(
            "stt.py failed: "@ + text::trim(stderr),
        ),
        check_error(true, stderr) is None,
        check_error(false, stderr) == Some(
            "faster-whisper not installed. Run: pip install faster-whisper\n"@ + text::trim(
                stderr,
            ),
        ),
{
}

/// The directory of an executable is its parent, or the current one where it has none.
pub proof fn executables_have_a_directory(exe: Seq<char>)
    ensures
        paths::parent_of(exe) matches Some(dir) ==> exe_dir(exe) == dir,
        paths::parent_of(exe) is None ==> exe_dir(exe) == "."@,
        paths::parent_of(exe) matches Some(dir) ==> two_above(exe) == paths::parent_of(dir),
{
}

} // verus!
