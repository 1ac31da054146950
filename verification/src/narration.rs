//! The request that asks Spotify's speech service to voice a DJ
//! commentary, and the reading of the voice settings that come with it.

use vstd::prelude::*;

use vstd::string::StringSliceAdditionalSpecFns;

use crate::text::{chars_of, decimal, decimal_digits, digit_char, same_text, starts_with};

verus! {

/// The protobuf varint of `v`: seven bits at a time, lowest first, each
/// byte but the last with its high bit set.
pub open spec fn varint(v: nat) -> Seq<u8>
    decreases v,
{
    if v < 128 {
        seq![v as u8]
    } else {
        seq![(v % 128 + 128) as u8] + varint(v / 128)
    }
}

/// The value a varint's bytes stand for, reading seven bits from each.
pub open spec fn varint_value(bytes: Seq<u8>) -> nat
    decreases bytes.len(),
{
    if bytes.len() == 0 {
        0
    } else {
        (bytes[0] % 128) as nat + 128 * varint_value(bytes.drop_first())
    }
}

/// Appends the varint of `val` to `buf`.
fn encode_varint(val: u64, buf: &mut Vec<u8>)
    ensures
        final(buf)@ == old(buf)@ + varint(val as nat),
{
    let ghost orig = val;
    let mut val = val;
    let ghost start = buf@;
    while val >= 0x80
        invariant
            buf@ + varint(val as nat) == start + varint(orig as nat),
        decreases val,
    {
        let byte: u8 = ((val as u8) & 0x7f) | 0x80;
        assert(((val as u8) & 0x7f) | 0x80 == (val % 128 + 128) as u8) by (bit_vector)
            requires
                val >= 0x80,
        ;
        assert(val >> 7 == val / 128) by (bit_vector);
        let ghost before = buf@;
        buf.push(byte);
        val = val >> 7;
        assert(before.push(byte) + varint(val as nat) =~= before + (seq![byte] + varint(val as nat)));
    }
    let ghost before = buf@;
    buf.push(val as u8);
    assert(before.push(val as u8) =~= before + varint(val as nat));
}

/// The bytes of a TtsRequest asking for `prompt` in a voice, from a
/// provider, at a sample rate and in an audio format: fields 2 (the prompt,
/// length-delimited), 3 (format), 5 (voice), 6 (provider) and 7 (sample
/// rate), in that order.
pub open spec fn tts_request(prompt: Seq<u8>, voice: nat, provider: nat, sample_rate: nat, format: nat) -> Seq<
    u8,
> {
    varint(18) + varint(prompt.len()) + prompt + varint(24) + varint(format) + varint(40) + varint(
        voice,
    ) + varint(48) + varint(provider) + varint(56) + varint(sample_rate)
}

/// Encodes a protobuf TtsRequest for Spotify's `/client-tts/v1/fulfill`
/// endpoint.
pub fn encode_tts_request(ssml: &str, voice: u32, provider: u32, sample_rate: u32, format: u32) -> (buf:
    Vec<u8>)
    ensures
        buf@ == tts_request(
            ssml.spec_bytes(),
            voice as nat,
            provider as nat,
            sample_rate as nat,
            format as nat,
        ),
{
    let mut buf: Vec<u8> = Vec::new();
    assert((2u64 << 3) | 2 == 18 && 3u64 << 3 == 24 && 5u64 << 3 == 40 && 6u64 << 3 == 48 && 7u64
        << 3 == 56) by (bit_vector);
    // Field 2, the prompt: wire type 2, length delimited.
    encode_varint((2 << 3) | 2, &mut buf);
    let bytes = ssml.as_bytes();
    encode_varint(bytes.len() as u64, &mut buf);
    let ghost head = buf@;
    let mut i: usize = 0;
    while i < bytes.len()
        invariant
            i <= bytes@.len(),
            buf@ == head + bytes@.take(i as int),
        decreases bytes@.len() - i,
    {
        buf.push(bytes[i]);
        i += 1;
        assert(bytes@.take(i as int) =~= bytes@.take(i - 1).push(bytes@[i - 1]));
    }
    assert(bytes@.take(i as int) =~= bytes@);
    // Fields 3, 5, 6 and 7: wire type 0, varints.
    encode_varint(3 << 3, &mut buf);
    encode_varint(format as u64, &mut buf);
    encode_varint(5 << 3, &mut buf);
    encode_varint(voice as u64, &mut buf);
    encode_varint(6 << 3, &mut buf);
    encode_varint(provider as u64, &mut buf);
    encode_varint(7 << 3, &mut buf);
    encode_varint(sample_rate as u64, &mut buf);
    buf
}

/// Reading a varint back gives the value it was written from, and every
/// byte but the last says that more follow.
pub proof fn varints_read_back(v: nat)
    ensures
        varint_value(varint(v)) == v,
        varint(v).len() >= 1,
        varint(v).last() < 128,
        forall|i: int| 0 <= i < varint(v).len() - 1 ==> varint(v)[i] >= 128,
    decreases v,
{
    if v >= 128 {
        varints_read_back(v / 128);
        assert(varint(v).drop_first() =~= varint(v / 128));
        let b = (v % 128 + 128) as u8;
        assert(b == v % 128 + 128);
        assert(varint(v)[0] == b);
        assert(varint_value(varint(v)) == (varint(v)[0] % 128) as nat + 128 * varint_value(
            varint(v).drop_first(),
        ));
        assert(b % 128 == v % 128);
        assert(v == v % 128 + 128 * (v / 128));
    } else {
        assert((v as u8) == v);
        assert(varint(v).drop_first().len() == 0);
        assert(varint_value(varint(v).drop_first()) == 0);
        assert(varint_value(varint(v)) == (varint(v)[0] % 128) as nat + 128 * varint_value(
            varint(v).drop_first(),
        ));
    }
}

/// Whether a character is an ASCII decimal digit.
pub open spec fn is_digit(c: char) -> bool {
    '0' <= c <= '9'
}

/// A speech request opens with the key of field 2 as length-delimited
/// (`0x12`), then the prompt's length, then the prompt itself, byte for
/// byte; it closes with the key of field 7 as a varint (`0x38`) and the
/// sample rate.
pub proof fn the_request_carries_the_prompt_whole(
    prompt: Seq<u8>,
    voice: nat,
    provider: nat,
    sample_rate: nat,
    format: nat,
)
    ensures
        ({
            let r = tts_request(prompt, voice, provider, sample_rate, format);
            let k = 1int + varint(prompt.len()).len();
            &&& r[0] == 0x12
            &&& r.subrange(1, k) == varint(prompt.len())
            &&& r.subrange(k, k + prompt.len()) == prompt
            &&& r.subrange(r.len() - varint(sample_rate).len() - 1, r.len() as int) == seq![0x38u8]
                + varint(sample_rate)
        }),
{
    let r = tts_request(prompt, voice, provider, sample_rate, format);
    let k = 1int + varint(prompt.len()).len();
    assert(varint(18) == seq![18u8]);
    assert(varint(56) == seq![56u8]);
    let head = varint(18) + varint(prompt.len()) + prompt;
    let rest = varint(24) + varint(format) + varint(40) + varint(voice) + varint(48) + varint(provider);
    assert(r =~= head + rest + (seq![56u8] + varint(sample_rate)));
    assert(r.subrange(1, k) =~= varint(prompt.len()));
    assert(r.subrange(k, k + prompt.len()) =~= prompt);
    assert(r.subrange(r.len() - varint(sample_rate).len() - 1, r.len() as int) =~= seq![56u8] + varint(
        sample_rate,
    ));
}

/// The value of a run of decimal digits.
pub open spec fn digits_value(s: Seq<char>) -> nat
    decreases s.len(),
{
    if s.len() == 0 {
        0
    } else {
        digits_value(s.drop_last()) * 10 + ((s.last() as u32 - '0' as u32) as nat)
    }
}

/// What `u32::from_str` accepts: an optional `+`, then one or more ASCII
/// digits, for a value that fits in 32 bits.
pub open spec fn parse_u32(s: Seq<char>) -> Option<u32> {
    parse_digits(unsigned_digits(s))
}

/// The digits of a numeral after its optional `+` sign.
pub open spec fn unsigned_digits(s: Seq<char>) -> Seq<char> {
    if s.len() > 1 && s[0] == '+' {
        s.drop_first()
    } else {
        s
    }
}

/// The value of one or more ASCII digits, where it fits in 32 bits.
pub open spec fn parse_digits(digits: Seq<char>) -> Option<u32> {
    if digits.len() > 0 && (forall|i: int| 0 <= i < digits.len() ==> is_digit(#[trigger] digits[i]))
        && digits_value(digits) <= u32::MAX {
        Some(digits_value(digits) as u32)
    } else {
        None
    }
}

/// Parses the characters of `s` from `from` on as `u32::from_str` does.
fn parse_u32_from(s: &Vec<char>, from: usize) -> (r: Option<u32>)
    requires
        from <= s.len(),
    ensures
        r == parse_u32(s@.subrange(from as int, s.len() as int)),
{
    let ghost whole = s@.subrange(from as int, s.len() as int);
    let mut start = from;
    if s.len() - from > 1 && s[from] == '+' {
        start = from + 1;
    }
    let ghost digits = s@.subrange(start as int, s.len() as int);
    assert(digits =~= if whole.len() > 1 && whole[0] == '+' {
        whole.drop_first()
    } else {
        whole
    });
    if start == s.len() {
        return None;
    }
    let mut value: u64 = 0;
    let mut i = start;
    while i < s.len()
        invariant
            start <= i <= s.len(),
            digits == s@.subrange(start as int, s.len() as int),
            whole == s@.subrange(from as int, s.len() as int),
            digits == unsigned_digits(whole),
            digits.len() > 0,
            forall|j: int| start <= j < i ==> is_digit(#[trigger] s@[j]),
            value == digits_value(s@.subrange(start as int, i as int)),
            value <= u32::MAX,
        decreases s.len() - i,
    {
        let c = s[i];
        if !('0' <= c && c <= '9') {
            assert(digits[i - start] == s@[i as int]);
            assert(!is_digit(digits[i - start]));
            assert(!(forall|j: int| 0 <= j < digits.len() ==> is_digit(#[trigger] digits[j])));
            assert(parse_u32(whole) is None);
            return None;
        }
        let d = (c as u32 - '0' as u32) as u64;
        assert(s@.subrange(start as int, i + 1).drop_last() =~= s@.subrange(start as int, i as int));
        let next = value * 10 + d;
        if next > 4294967295 {
            proof {
                if forall|j: int| 0 <= j < digits.len() ==> is_digit(#[trigger] digits[j]) {
                    assert(digits.subrange(0, i + 1 - start) =~= s@.subrange(start as int, i + 1));
                    lemma_digits_value_grows(digits, i + 1 - start);
                }
                assert(parse_u32(whole) is None);
            }
            return None;
        }
        value = next;
        i += 1;
    }
    assert(s@.subrange(start as int, s.len() as int) =~= digits);
    assert forall|j: int| 0 <= j < digits.len() implies is_digit(#[trigger] digits[j]) by {
        assert(digits[j] == s@[start + j]);
    }
    Some(value as u32)
}

proof fn lemma_digits_value_grows(s: Seq<char>, k: int)
    requires
        0 <= k <= s.len(),
        forall|i: int| 0 <= i < s.len() ==> is_digit(#[trigger] s[i]),
    ensures
        digits_value(s.subrange(0, k)) <= digits_value(s),
    decreases s.len(),
{
    if k < s.len() {
        assert(s.drop_last().subrange(0, k) =~= s.subrange(0, k));
        assert forall|i: int| 0 <= i < s.drop_last().len() implies is_digit(#[trigger] s.drop_last()[i]) by {
            assert(s.drop_last()[i] == s[i]);
        }
        lemma_digits_value_grows(s.drop_last(), k);
    } else {
        assert(s.subrange(0, k) =~= s);
    }
}

/// The voice number a `VOICE<n>` setting names; voice 1 when the setting
/// is absent or names no number.
pub open spec fn voice_of(setting: Option<Seq<char>>) -> u32 {
    match setting {
        Some(s) => if starts_with(s, "VOICE"@) {
            match parse_u32(s.subrange(5, s.len() as int)) {
                Some(n) => n,
                None => 1,
            }
        } else {
            1
        },
        None => 1,
    }
}

/// The TTS voice a narration asks for.
pub fn parse_voice(voice_str: Option<&str>) -> (voice: u32)
    ensures
        voice == voice_of(
            match voice_str {
                Some(s) => Some(s@),
                None => None,
            },
        ),
{
    proof {
        reveal_strlit("VOICE");
    }
    match voice_str {
        Some(s) => {
            let chars = chars_of(s);
            let prefix = chars_of("VOICE");
            if chars.len() >= 5 && chars[0] == prefix[0] && chars[1] == prefix[1] && chars[2]
                == prefix[2] && chars[3] == prefix[3] && chars[4] == prefix[4] {
                assert(chars@.subrange(0, 5) =~= "VOICE"@);
                match parse_u32_from(&chars, 5) {
                    Some(n) => n,
                    None => 1,
                }
            } else {
                proof {
                    if starts_with(s@, "VOICE"@) {
                        assert(chars@.subrange(0, 5)[0] == prefix@[0]);
                        assert(chars@.subrange(0, 5)[1] == prefix@[1]);
                        assert(chars@.subrange(0, 5)[2] == prefix@[2]);
                        assert(chars@.subrange(0, 5)[3] == prefix@[3]);
                        assert(chars@.subrange(0, 5)[4] == prefix@[4]);
                    }
                }
                1
            }
        },
        None => 1,
    }
}

/// The provider number a TTS provider name stands for; the fast Sonantic
/// voice, 6, for any other name or none.
pub open spec fn provider_of(setting: Option<Seq<char>>) -> u32 {
    match setting {
        Some(s) => if s == "SONANTIC_FAST"@ {
            6
        } else if s == "SONANTIC_DEPRECATED"@ {
            5
        } else if s == "WELL_SAID"@ {
            4
        } else if s == "POLLY"@ {
            3
        } else if s == "READSPEAKER"@ {
            2
        } else if s == "CLOUD_TTS"@ {
            1
        } else {
            6
        },
        None => 6,
    }
}

/// The TTS provider a narration asks for.
pub fn parse_provider(provider_str: Option<&str>) -> (provider: u32)
    ensures
        provider == provider_of(
            match provider_str {
                Some(s) => Some(s@),
                None => None,
            },
        ),
{
    match provider_str {
        Some(s) => if same_text(s, "SONANTIC_FAST") {
            6
        } else if same_text(s, "SONANTIC_DEPRECATED") {
            5
        } else if same_text(s, "WELL_SAID") {
            4
        } else if same_text(s, "POLLY") {
            3
        } else if same_text(s, "READSPEAKER") {
            2
        } else if same_text(s, "CLOUD_TTS") {
            1
        } else {
            6
        },
        None => 6,
    }
}

/// The part of a track a DJ commentary belongs to, by the metadata key
/// its SSML comes under.
#[derive(Clone, Copy, Debug, PartialEq, Eq, Structural)]
pub enum NarrationPart {
    Intro,
    Jump,
    Outro,
}

impl NarrationPart {
    /// The metadata prefix of this part's keys.
    pub fn prefix(self) -> (p: &'static str)
        ensures
            p@ == match self {
                NarrationPart::Intro => "narration.intro"@,
                NarrationPart::Jump => "narration.jump"@,
                NarrationPart::Outro => "narration.outro"@,
            },
    {
        match self {
            NarrationPart::Intro => "narration.intro",
            NarrationPart::Jump => "narration.jump",
            NarrationPart::Outro => "narration.outro",
        }
    }
}

/// Which commentary a track's metadata asks for: the first of the intro,
/// jump and outro SSML that is present, and none when that one is empty.
pub open spec fn narration_choice(
    intro: Option<Seq<char>>,
    jump: Option<Seq<char>>,
    outro: Option<Seq<char>>,
) -> Option<NarrationPart> {
    let (part, ssml) = if intro is Some {
        (NarrationPart::Intro, intro->0)
    } else if jump is Some {
        (NarrationPart::Jump, jump->0)
    } else if outro is Some {
        (NarrationPart::Outro, outro->0)
    } else {
        (NarrationPart::Intro, Seq::<char>::empty())
    };
    if ssml.len() == 0 {
        None
    } else {
        Some(part)
    }
}

/// The commentary chosen is the first part whose SSML is present, taken in
/// the order intro, jump, outro, and only when that SSML is not empty: a
/// present but empty part stops narration even when a later part has text.
pub proof fn the_first_present_part_decides(
    intro: Option<Seq<char>>,
    jump: Option<Seq<char>>,
    outro: Option<Seq<char>>,
)
    ensures
        intro matches Some(s) ==> narration_choice(intro, jump, outro) == if s.len() > 0 {
            Some(NarrationPart::Intro)
        } else {
            None
        },
        intro is None ==> (jump matches Some(s) ==> narration_choice(intro, jump, outro) == if s.len()
            > 0 {
            Some(NarrationPart::Jump)
        } else {
            None
        }),
        intro is None && jump is None ==> (outro matches Some(s) ==> narration_choice(intro, jump, outro)
            == if s.len() > 0 {
            Some(NarrationPart::Outro)
        } else {
            None
        }),
        intro is None && jump is None && outro is None ==> narration_choice(intro, jump, outro) is None,
{
}

proof fn lemma_decimal_value(n: nat)
    ensures
        digits_value(decimal(n)) == n,
    decreases n,
{
    lemma_digit_value(n % 10);
    if n >= 10 {
        lemma_decimal_value(n / 10);
        let d = decimal(n);
        assert(d.drop_last() =~= decimal(n / 10));
        assert(d.last() == digit_char(n % 10));
        assert(digits_value(d) == digits_value(d.drop_last()) * 10 + ((d.last() as u32 - '0' as u32) as nat));
        assert(digits_value(d.drop_last()) == n / 10);
        assert(n == (n / 10) * 10 + n % 10);
    } else {
        let d = decimal(n);
        assert(d.drop_last() =~= Seq::<char>::empty());
        assert(n % 10 == n);
        assert(d.last() == digit_char(n));
        assert(digits_value(d) == digits_value(d.drop_last()) * 10 + ((d.last() as u32 - '0' as u32) as nat));
    }
}

proof fn lemma_digit_value(d: nat)
    requires
        d < 10,
    ensures
        (digit_char(d) as u32 - '0' as u32) as nat == d,
{
}

/// A `VOICE<n>` setting names voice `n`, for every number a voice can have;
/// no setting, or one that does not start with `VOICE`, gives voice 1.
pub proof fn voice_settings_read_back(n: u32, other: Seq<char>)
    ensures
        voice_of(Some("VOICE"@ + decimal(n as nat))) == n,
        voice_of(None) == 1,
        !starts_with(other, "VOICE"@) ==> voice_of(Some(other)) == 1,
{
    reveal_strlit("VOICE");
    let digits = decimal(n as nat);
    let s = "VOICE"@ + digits;
    decimal_digits(n as nat);
    lemma_decimal_value(n as nat);
    assert(s.subrange(0, 5) =~= "VOICE"@);
    assert(s.subrange(5, s.len() as int) =~= digits);
    assert(digits[0] != '+');
    assert(unsigned_digits(digits) == digits);
    assert forall|i: int| 0 <= i < digits.len() implies is_digit(#[trigger] digits[i]) by {
        assert('0' <= digits[i] <= '9');
    }
}

/// The commentary to voice for a track, given the SSML its metadata holds
/// under the intro, jump and outro keys; `None` stops any narration.
pub fn choose_narration(intro: Option<&str>, jump: Option<&str>, outro: Option<&str>) -> (r: Option<
    NarrationPart,
>)
    ensures
        r == narration_choice(
            match intro {
                Some(s) => Some(s@),
                None => None,
            },
            match jump {
                Some(s) => Some(s@),
                None => None,
            },
            match outro {
                Some(s) => Some(s@),
                None => None,
            },
        ),
{
    let (part, ssml) = if let Some(s) = intro {
        (NarrationPart::Intro, s)
    } else if let Some(s) = jump {
        (NarrationPart::Jump, s)
    } else if let Some(s) = outro {
        (NarrationPart::Outro, s)
    } else {
        return None;
    };
    if ssml.is_empty() {
        None
    } else {
        Some(part)
    }
}

/// The audio formats the speech service is asked for, in turn: MP3 (5),
/// then Vorbis (4), then WAV (1).
pub open spec fn tts_format_at(attempt: int) -> Option<u32> {
    if attempt == 0 {
        Some(5u32)
    } else if attempt == 1 {
        Some(4u32)
    } else if attempt == 2 {
        Some(1u32)
    } else {
        None
    }
}

/// Whether a status sends the client elsewhere: 301, 302, 303 or 307.
pub open spec fn is_redirect(status: u16) -> bool {
    status == 301 || status == 302 || status == 303 || status == 307
}

/// Whether a status is a success, in the 200s.
pub open spec fn is_success(status: u16) -> bool {
    200 <= status <= 299
}

/// Why an attempt at the speech audio failed.
#[derive(Clone, Copy, Debug, PartialEq, Eq, Structural)]
pub enum TtsFailure {
    /// The request could not be sent.
    Unsent,
    /// The audio the service pointed to answered with this status.
    DownloadStatus(u16),
    /// The service answered with this status.
    ServiceStatus(u16),
}

/// What came back from the last thing the fetch did.
#[derive(Clone, Copy, Debug, PartialEq, Eq, Structural)]
pub enum TtsEvent {
    /// The request for the audio could not be sent.
    SendFailed,
    /// The service answered with this status; for a redirect, whether it
    /// said where to.
    Answered { status: u16, has_location: bool },
    /// The audio the service pointed to answered with this status.
    Downloaded { status: u16 },
    /// The body that came back was read, and was empty or not.
    BodyRead { empty: bool },
}

/// What the fetch does next.
#[derive(Clone, Copy, Debug, PartialEq, Eq, Structural)]
pub enum TtsAction {
    /// Ask the service for the audio in this format.
    Request { format: u32 },
    /// Download the audio from where the service pointed.
    FollowRedirect,
    /// Read the body of the answer.
    ReadBody,
    /// The body read is the audio: hand it over.
    Deliver,
    /// Every format failed: report the last failure, if any.
    GiveUp,
}

/// Where the fetch of the speech audio stands: which format it is on, and
/// the last failure it met.
#[derive(Clone, Copy, Debug, PartialEq, Eq, Structural)]
pub struct TtsFetch {
    pub attempt: usize,
    pub last_failure: Option<TtsFailure>,
}

/// The fetch moved on to the next format, with `failure` the last one met.
pub open spec fn next_attempt(f: TtsFetch, failure: Option<TtsFailure>) -> (TtsFetch, TtsAction) {
    let next = TtsFetch { attempt: (f.attempt + 1) as usize, last_failure: failure };
    match tts_format_at(f.attempt + 1) {
        Some(format) => (next, TtsAction::Request { format }),
        None => (next, TtsAction::GiveUp),
    }
}

/// One step of the fetch: a failed send, a failure status or an empty body
/// moves on to the next format; a redirect that says where is followed, one
/// that does not moves on; a success has its body read; a body that is not
/// empty is the audio.
pub open spec fn tts_step(f: TtsFetch, event: TtsEvent) -> (TtsFetch, TtsAction) {
    match event {
        TtsEvent::SendFailed => next_attempt(f, Some(TtsFailure::Unsent)),
        TtsEvent::Answered { status, has_location } => if is_redirect(status) {
            if has_location {
                (f, TtsAction::FollowRedirect)
            } else {
                next_attempt(f, f.last_failure)
            }
        } else if is_success(status) {
            (f, TtsAction::ReadBody)
        } else {
            next_attempt(f, Some(TtsFailure::ServiceStatus(status)))
        },
        TtsEvent::Downloaded { status } => if is_success(status) {
            (f, TtsAction::ReadBody)
        } else {
            next_attempt(f, Some(TtsFailure::DownloadStatus(status)))
        },
        TtsEvent::BodyRead { empty } => if empty {
            next_attempt(f, f.last_failure)
        } else {
            (f, TtsAction::Deliver)
        },
    }
}

fn format_at(attempt: usize) -> (r: Option<u32>)
    ensures
        r == tts_format_at(attempt as int),
{
    if attempt == 0 {
        Some(5)
    } else if attempt == 1 {
        Some(4)
    } else if attempt == 2 {
        Some(1)
    } else {
        None
    }
}

impl TtsFetch {
    /// A fetch starting out: asking for MP3.
    pub fn start() -> (r: (TtsFetch, TtsAction))
        ensures
            r == (TtsFetch { attempt: 0, last_failure: None }, TtsAction::Request { format: 5 }),
    {
        (TtsFetch { attempt: 0, last_failure: None }, TtsAction::Request { format: 5 })
    }

    fn move_on(self, failure: Option<TtsFailure>) -> (r: (TtsFetch, TtsAction))
        requires
            self.attempt < 3,
        ensures
            r == next_attempt(self, failure),
    {
        let next = TtsFetch { attempt: self.attempt + 1, last_failure: failure };
        match format_at(self.attempt + 1) {
            Some(format) => (next, TtsAction::Request { format }),
            None => (next, TtsAction::GiveUp),
        }
    }

    /// The next step of a fetch that is still asking (on one of the three
    /// formats), given what came back.
    pub fn step(self, event: TtsEvent) -> (r: (TtsFetch, TtsAction))
        requires
            self.attempt < 3,
        ensures
            r == tts_step(self, event),
    {
        match event {
            TtsEvent::SendFailed => self.move_on(Some(TtsFailure::Unsent)),
            TtsEvent::Answered { status, has_location } => {
                if status == 301 || status == 302 || status == 303 || status == 307 {
                    if has_location {
                        (self, TtsAction::FollowRedirect)
                    } else {
                        self.move_on(self.last_failure)
                    }
                } else if 200 <= status && status <= 299 {
                    (self, TtsAction::ReadBody)
                } else {
                    self.move_on(Some(TtsFailure::ServiceStatus(status)))
                }
            },
            TtsEvent::Downloaded { status } => {
                if 200 <= status && status <= 299 {
                    (self, TtsAction::ReadBody)
                } else {
                    self.move_on(Some(TtsFailure::DownloadStatus(status)))
                }
            },
            TtsEvent::BodyRead { empty } => {
                if empty {
                    self.move_on(self.last_failure)
                } else {
                    (self, TtsAction::Deliver)
                }
            },
        }
    }
}

/// What each answer does to the fetch:
/// - a success from the service or from the audio it pointed to has its
///   body read, on the same format;
/// - a body that is not empty is the audio, handed over as it stands;
/// - a redirect that says where is followed, on the same format;
/// - a failed send, a failure status, an empty body or a redirect that
///   says nowhere moves to the next format, remembering the failure met
///   (or keeping the last one, where none was).
pub proof fn each_answer_moves_the_fetch_as_it_should(f: TtsFetch, status: u16, has_location: bool)
    requires
        f.attempt < 3,
    ensures
        200 <= status <= 299 ==> tts_step(f, TtsEvent::Downloaded { status }) == (f, TtsAction::ReadBody),
        200 <= status <= 299 ==> tts_step(f, TtsEvent::Answered { status, has_location }) == (
        f,
        TtsAction::ReadBody,
        ),
        tts_step(f, TtsEvent::BodyRead { empty: false }) == (f, TtsAction::Deliver),
        (status == 301 || status == 302 || status == 303 || status == 307) ==> tts_step(
            f,
            TtsEvent::Answered { status, has_location: true },
        ) == (f, TtsAction::FollowRedirect),
        (status == 301 || status == 302 || status == 303 || status == 307) ==> tts_step(
            f,
            TtsEvent::Answered { status, has_location: false },
        ).0 == (TtsFetch { attempt: (f.attempt + 1) as usize, last_failure: f.last_failure }),
        tts_step(f, TtsEvent::SendFailed).0 == (TtsFetch {
            attempt: (f.attempt + 1) as usize,
            last_failure: Some(TtsFailure::Unsent),
        }),
        !(200 <= status <= 299) ==> tts_step(f, TtsEvent::Downloaded { status }).0 == (TtsFetch {
            attempt: (f.attempt + 1) as usize,
            last_failure: Some(TtsFailure::DownloadStatus(status)),
        }),
        !(200 <= status <= 299) && !(status == 301 || status == 302 || status == 303 || status == 307)
            ==> tts_step(f, TtsEvent::Answered { status, has_location }).0 == (TtsFetch {
            attempt: (f.attempt + 1) as usize,
            last_failure: Some(TtsFailure::ServiceStatus(status)),
        }),
        tts_step(f, TtsEvent::BodyRead { empty: true }).0 == (TtsFetch {
            attempt: (f.attempt + 1) as usize,
            last_failure: f.last_failure,
        }),
        forall|e: TtsEvent|
            #[trigger] tts_step(f, e).0.attempt == f.attempt + 1 ==> tts_step(f, e).1 == (if f.attempt
                == 0 {
                TtsAction::Request { format: 4 }
            } else if f.attempt == 1 {
                TtsAction::Request { format: 1 }
            } else {
                TtsAction::GiveUp
            }),
{
}

/// A fetch asks for at most three formats: every step either stays on its
/// format or moves to the next, and it asks again only while a format is
/// left; after the third it gives up.
pub proof fn the_fetch_tries_three_formats_at_most(f: TtsFetch, event: TtsEvent)
    requires
        f.attempt < 3,
    ensures
        tts_step(f, event).0.attempt == f.attempt || tts_step(f, event).0.attempt == f.attempt + 1,
        tts_step(f, event).1 matches TtsAction::Request { format } ==> tts_step(f, event).0.attempt
            < 3 && Some(format) == tts_format_at(tts_step(f, event).0.attempt as int),
        tts_step(f, event).0.attempt == 3 ==> tts_step(f, event).1 == TtsAction::GiveUp,
{
}

} // verus!
