use vstd::prelude::*;
use crate::error::CaptureError;

verus! {

/// Score from which a device is taken to carry system audio.
pub const USABLE_SCORE: u32 = 70;

/// Score of a device that matches no keyword (microphones and the like).
pub const PLAIN_SCORE: u32 = 10;

/// The operating system whose keyword table applies.
#[derive(Clone, Copy, Debug, PartialEq, Eq, Structural)]
pub enum Platform {
    Windows,
    MacOs,
    Linux,
    Other,
}

/// `needle` occurs in `hay` as a contiguous run.
pub open spec fn contains_seq(hay: Seq<char>, needle: Seq<char>) -> bool {
    exists|i: int|
        0 <= i && i + needle.len() <= hay.len() && #[trigger] hay.subrange(i, i + needle.len())
            == needle
}

/// What `str::to_lowercase` makes of a name.
pub uninterp spec fn lower_of(s: Seq<char>) -> Seq<char>;

/// Relies on `str::to_lowercase`: the result depends on the characters alone.
#[verifier::external_body]
fn lowercase(s: &str) -> (r: String)
    ensures
        r@ == lower_of(s@),
{
    s.to_lowercase()
}

/// Relies on `str::contains` with a `&str` pattern: true when the pattern
/// matches a substring.
#[verifier::external_body]
fn str_contains(hay: &str, needle: &str) -> (r: bool)
    ensures
        r == contains_seq(hay@, needle@),
{
    hay.contains(needle)
}

/// How likely a device with this lower-case name carries what the machine
/// plays rather than a microphone; higher is likelier.
pub open spec fn name_score(lower: Seq<char>, platform: Platform) -> u32 {
    let has = |k: &str| contains_seq(lower, k@);
    match platform {
        Platform::Windows => if has("stereo mix") || has("what u hear") || has("what you hear") {
            100
        } else if has("cable") {
            90
        } else if has("voicemeeter") || has("voicemeter") || has("vb-audio") {
            85
        } else if has("virtual") || has("loopback") {
            70
        } else {
            PLAIN_SCORE
        },
        Platform::MacOs => if has("blackhole") {
            100
        } else if has("loopback") {
            95
        } else if has("soundflower") {
            90
        } else if has("multi-output") {
            85
        } else if has("aggregate") {
            80
        } else {
            PLAIN_SCORE
        },
        Platform::Linux => if has("monitor") {
            100
        } else if has("loopback") {
            80
        } else {
            PLAIN_SCORE
        },
        Platform::Other => PLAIN_SCORE,
    }
}

/// Scores an already lower-cased device name against the platform's keyword table.
pub fn score_lowercase_name(lower: &str, platform: Platform) -> (r: u32)
    ensures
        r == name_score(lower@, platform),
{
    match platform {
        Platform::Windows => {
            if str_contains(lower, "stereo mix") || str_contains(lower, "what u hear")
                || str_contains(lower, "what you hear") {
                100
            } else if str_contains(lower, "cable") {
                90
            } else if str_contains(lower, "voicemeeter") || str_contains(lower, "voicemeter")
                || str_contains(lower, "vb-audio") {
                85
            } else if str_contains(lower, "virtual") || str_contains(lower, "loopback") {
                70
            } else {
                PLAIN_SCORE
            }
        },
        Platform::MacOs => {
            if str_contains(lower, "blackhole") {
                100
            } else if str_contains(lower, "loopback") {
                95
            } else if str_contains(lower, "soundflower") {
                90
            } else if str_contains(lower, "multi-output") {
                85
            } else if str_contains(lower, "aggregate") {
                80
            } else {
                PLAIN_SCORE
            }
        },
        Platform::Linux => {
            if str_contains(lower, "monitor") {
                100
            } else if str_contains(lower, "loopback") {
                80
            } else {
                PLAIN_SCORE
            }
        },
        Platform::Other => PLAIN_SCORE,
    }
}

/// Scores a device name as reported by the audio host; case does not matter.
pub fn score_device_name(name: &str, platform: Platform) -> (r: u32)
    ensures
        r == name_score(lower_of(name@), platform),
{
    let lower = lowercase(name);
    score_lowercase_name(lower.as_str(), platform)
}

/// Which input device to capture from.
#[derive(Clone, Copy, Debug, PartialEq, Eq, Structural)]
pub enum DeviceChoice {
    /// The enumerated device at this index.
    Enumerated(usize),
    /// The host's default input device.
    DefaultInput,
}

/// `i` is the first position of a largest score.
pub open spec fn first_best(scores: Seq<u32>, i: int) -> bool {
    &&& 0 <= i < scores.len()
    &&& forall|j: int| 0 <= j < scores.len() ==> scores[j] <= scores[i]
    &&& forall|j: int| 0 <= j < i ==> scores[j] < scores[i]
}

/// Takes the first best-scoring device if it is usable, else the default
/// input device if there is one, else asks for a loopback driver to be set up.
pub fn choose_device(scores: &[u32], has_default_input: bool) -> (r: Result<
    DeviceChoice,
    CaptureError,
>)
    ensures
        (exists|j: int| 0 <= j < scores@.len() && scores@[j] >= USABLE_SCORE) ==> (r matches Ok(
            DeviceChoice::Enumerated(i),
        ) && first_best(scores@, i as int)),
        !(exists|j: int| 0 <= j < scores@.len() && scores@[j] >= USABLE_SCORE) ==> (
        has_default_input ==> r == Ok::<DeviceChoice, CaptureError>(DeviceChoice::DefaultInput)),
        !(exists|j: int| 0 <= j < scores@.len() && scores@[j] >= USABLE_SCORE) ==> (
        !has_default_input ==> r == Err::<DeviceChoice, CaptureError>(CaptureError::SetupRequired)),
{
    let mut best: usize = 0;
    let mut i: usize = 1;
    if scores.len() > 0 {
        while i < scores.len()
            invariant
                1 <= i <= scores@.len(),
                best < i,
                forall|j: int| 0 <= j < i ==> scores@[j] <= scores@[best as int],
                forall|j: int| 0 <= j < best ==> scores@[j] < scores@[best as int],
            decreases scores@.len() - i,
        {
            if scores[i] > scores[best] {
                best = i;
            }
            i = i + 1;
        }
        if scores[best] >= USABLE_SCORE {
            return Ok(DeviceChoice::Enumerated(best));
        }
    }
    if has_default_input {
        Ok(DeviceChoice::DefaultInput)
    } else {
        Err(CaptureError::SetupRequired)
    }
}

/// Scores every enumerated input device by name and picks the capture source.
pub fn select_system_audio_device(
    names: &[String],
    has_default_input: bool,
    platform: Platform,
) -> (r: Result<DeviceChoice, CaptureError>)
    ensures
        ({
            let scores = names@.map_values(|n: String| name_score(lower_of(n@), platform));
            &&& (exists|j: int| 0 <= j < scores.len() && scores[j] >= USABLE_SCORE) ==> (r matches Ok(
                DeviceChoice::Enumerated(i),
            ) && first_best(scores, i as int))
            &&& !(exists|j: int| 0 <= j < scores.len() && scores[j] >= USABLE_SCORE) ==> (
            has_default_input ==> r == Ok::<DeviceChoice, CaptureError>(DeviceChoice::DefaultInput))
            &&& !(exists|j: int| 0 <= j < scores.len() && scores[j] >= USABLE_SCORE) ==> (
            !has_default_input ==> r == Err::<DeviceChoice, CaptureError>(
                CaptureError::SetupRequired,
            ))
        }),
{
    let ghost want = names@.map_values(|n: String| name_score(lower_of(n@), platform));
    let mut scores: Vec<u32> = Vec::new();
    let mut i: usize = 0;
    while i < names.len()
        invariant
            i <= names@.len(),
            want == names@.map_values(|n: String| name_score(lower_of(n@), platform)),
            scores@ == want.subrange(0, i as int),
        decreases names@.len() - i,
    {
        let s = score_device_name(names[i].as_str(), platform);
        scores.push(s);
        assert(scores@ =~= want.subrange(0, i + 1));
        i = i + 1;
    }
    assert(scores@ =~= want);
    choose_device(scores.as_slice(), has_default_input)
}

} // verus!
