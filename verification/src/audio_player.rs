//! Audio codecs and the book-keeping of audio playback.
use crate::text::same;
use vstd::prelude::*;

verus! {

/// A playback backlog above this many milliseconds is thrown away: the queue has no limit
/// of its own, and a backlog that has built up would stay for good.
pub const AUDIO_BUFFER_MAX_MS: u64 = 150;

/// The sample rate of raw and opus audio.
pub const SAMPLE_RATE: u32 = 48_000;

/// The number of channels of raw and opus audio.
pub const CHANNELS: u16 = 2;

/// The audio codecs.
#[derive(Debug, Clone, Copy, PartialEq, Eq, Structural)]
pub enum AudioCodec {
    Opus,
    Aac,
    Flac,
    Raw,
}

impl AudioCodec {
    /// The codec's identifier in the stream: its name as four ASCII bytes, padded with
    /// zeros in front.
    pub open spec fn codec_id(self) -> u32 {
        match self {
            AudioCodec::Opus => 0x6f707573,
            AudioCodec::Aac => 0x00616163,
            AudioCodec::Flac => 0x666c6163,
            AudioCodec::Raw => 0x00726177,
        }
    }

    /// The codec's name in settings.
    pub open spec fn spelled(self) -> Seq<char> {
        match self {
            AudioCodec::Opus => "opus"@,
            AudioCodec::Aac => "aac"@,
            AudioCodec::Flac => "flac"@,
            AudioCodec::Raw => "raw"@,
        }
    }

    /// The codec's index in audio commands.
    pub open spec fn index(self) -> u8 {
        match self {
            AudioCodec::Raw => 0,
            AudioCodec::Opus => 1,
            AudioCodec::Aac => 2,
            AudioCodec::Flac => 3,
        }
    }

    /// The codec with identifier `id`.
    pub fn from_codec_id(id: u32) -> (r: Option<Self>)
        ensures
            r matches Some(c) ==> c.codec_id() == id,
            r is None ==> forall|c: AudioCodec| c.codec_id() != id,
    {
        match id {
            0x6f707573 => Some(AudioCodec::Opus),
            0x00616163 => Some(AudioCodec::Aac),
            0x666c6163 => Some(AudioCodec::Flac),
            0x00726177 => Some(AudioCodec::Raw),
            _ => None,
        }
    }

    pub fn name(self) -> (r: &'static str)
        ensures
            r@ == self.spelled(),
    {
        match self {
            AudioCodec::Opus => "opus",
            AudioCodec::Aac => "aac",
            AudioCodec::Flac => "flac",
            AudioCodec::Raw => "raw",
        }
    }

    /// The codec of that name; any other name stands for raw audio.
    pub fn from_name(name: &str) -> (r: Self)
        ensures
            r == Self::named(name@),
    {
        if same(name, "opus") {
            AudioCodec::Opus
        } else if same(name, "aac") {
            AudioCodec::Aac
        } else if same(name, "flac") {
            AudioCodec::Flac
        } else {
            AudioCodec::Raw
        }
    }

    /// The codec of that name; any other name stands for raw audio.
    pub open spec fn named(name: Seq<char>) -> AudioCodec {
        if name == "opus"@ {
            AudioCodec::Opus
        } else if name == "aac"@ {
            AudioCodec::Aac
        } else if name == "flac"@ {
            AudioCodec::Flac
        } else {
            AudioCodec::Raw
        }
    }

    pub fn handshake_byte(self) -> (r: u8)
        ensures
            r == self.index(),
    {
        match self {
            AudioCodec::Raw => 0,
            AudioCodec::Opus => 1,
            AudioCodec::Aac => 2,
            AudioCodec::Flac => 3,
        }
    }

    /// The codec with that index.
    pub fn from_handshake_byte(byte: u8) -> (r: Option<Self>)
        ensures
            r == Self::indexed(byte),
    {
        match byte {
            0 => Some(AudioCodec::Raw),
            1 => Some(AudioCodec::Opus),
            2 => Some(AudioCodec::Aac),
            3 => Some(AudioCodec::Flac),
            _ => None,
        }
    }

    /// The codec with that index.
    pub open spec fn indexed(byte: u8) -> Option<AudioCodec> {
        if byte == 0 {
            Some(AudioCodec::Raw)
        } else if byte == 1 {
            Some(AudioCodec::Opus)
        } else if byte == 2 {
            Some(AudioCodec::Aac)
        } else if byte == 3 {
            Some(AudioCodec::Flac)
        } else {
            None
        }
    }

    /// A decoder can only be made once the codec's parameters have come.
    pub open spec fn wants_config(self) -> bool {
        self == AudioCodec::Aac || self == AudioCodec::Flac
    }

    /// Whether a decoder can only be made once the codec's parameters have come.
    pub fn needs_config(self) -> (r: bool)
        ensures
            r == self.wants_config(),
    {
        match self {
            AudioCodec::Aac => true,
            AudioCodec::Flac => true,
            _ => false,
        }
    }
}

/// An index names the codec that has it, and no codec shares its index with another.
pub proof fn law_codec_index_round_trip(c: AudioCodec, byte: u8)
    ensures
        AudioCodec::indexed(c.index()) == Some(c),
        AudioCodec::indexed(byte) matches Some(d) ==> d.index() == byte,
{
}

/// A codec's name names the codec.
pub proof fn law_codec_name_round_trip(c: AudioCodec)
    ensures
        AudioCodec::named(c.spelled()) == c,
{
    reveal_strlit("opus");
    reveal_strlit("aac");
    reveal_strlit("flac");
    reveal_strlit("raw");
    assert("raw"@[0] == 'r');
    assert("opus"@[0] == 'o');
    assert("aac"@[0] == 'a');
    assert("flac"@[0] == 'f');
}

/// The sample at place `i` of 16-bit little-endian audio.
pub open spec fn sample_at(data: Seq<u8>, i: int) -> i16 {
    let u = data[2 * i] + 256 * data[2 * i + 1];
    if u < 0x8000 {
        u as i16
    } else {
        (u - 0x1_0000) as i16
    }
}

/// The samples of raw audio; an odd last byte is dropped.
pub fn decode_raw(data: &[u8]) -> (r: Vec<i16>)
    ensures
        r@.len() == data@.len() / 2,
        forall|i: int| 0 <= i < r@.len() ==> #[trigger] r@[i] == sample_at(data@, i),
{
    let n: usize = data.len() / 2;
    let mut r: Vec<i16> = Vec::new();
    let mut i: usize = 0;
    while i < n
        invariant
            i <= n,
            n == data@.len() / 2,
            r@.len() == i,
            forall|j: int| 0 <= j < i ==> #[trigger] r@[j] == sample_at(data@, j),
        decreases n - i,
    {
        assert(data.len() == data@.len());
        let u: i32 = data[2 * i] as i32 + 256 * data[2 * i + 1] as i32;
        let s: i16 = if u < 0x8000 {
            u as i16
        } else {
            (u - 0x1_0000) as i16
        };
        r.push(s);
        i += 1;
    }
    r
}

/// How far playback lags behind what it was fed.
#[derive(Debug, Clone, Copy, PartialEq, Eq, Structural)]
pub struct PlaybackMeter {
    /// The samples that were fed, over all channels.
    pub fed: u64,
    /// The samples that have been played.
    pub played: u64,
    pub channels: u16,
    pub sample_rate: u32,
}

impl PlaybackMeter {
    pub fn new() -> (r: Self)
        ensures
            r == (PlaybackMeter { fed: 0, played: 0, channels: 2, sample_rate: 48_000 }),
    {
        PlaybackMeter { fed: 0, played: 0, channels: CHANNELS, sample_rate: SAMPLE_RATE }
    }

    /// The backlog in milliseconds.
    pub open spec fn backlog_ms(self) -> int {
        let per_second = self.sample_rate * self.channels;
        if per_second == 0 || self.fed <= self.played {
            0
        } else {
            (self.fed - self.played) * 1000 / per_second
        }
    }

    /// `samples` decoded samples were put into the queue; none of them changes nothing.
    pub fn feed(&mut self, samples: u64, channels: u16, sample_rate: u32)
        requires
            old(self).fed + samples <= u64::MAX,
        ensures
            *final(self) == if samples == 0 {
                *old(self)
            } else {
                PlaybackMeter {
                    fed: (old(self).fed + samples) as u64,
                    played: old(self).played,
                    channels,
                    sample_rate,
                }
            },
    {
        if samples == 0 {
            return ;
        }
        self.channels = channels;
        self.sample_rate = sample_rate;
        self.fed = self.fed + samples;
    }

    /// The backlog of the playback queue in milliseconds.
    pub fn buffer_ms(&self) -> (r: u64)
        requires
            (self.fed - self.played) * 1000 <= u64::MAX,
        ensures
            r == self.backlog_ms(),
    {
        assert(self.sample_rate * self.channels <= 0xFFFF_FFFF * 0xFFFF) by (nonlinear_arith)
            requires
                self.sample_rate <= 0xFFFF_FFFF,
                self.channels <= 0xFFFF,
        ;
        assert(self.sample_rate * self.channels >= 0) by (nonlinear_arith);
        let per_second: u64 = self.sample_rate as u64 * self.channels as u64;
        if per_second == 0 {
            return 0;
        }
        if self.fed <= self.played {
            return 0;
        }
        (self.fed - self.played) * 1000 / per_second
    }

    /// The queue was emptied: nothing is left to play.
    pub fn clear(&mut self)
        ensures
            *final(self) == (PlaybackMeter { fed: old(self).played, ..*old(self) }),
            final(self).backlog_ms() == 0,
    {
        self.fed = self.played;
    }
}

impl Default for PlaybackMeter {
    fn default() -> (r: Self)
        ensures
            r == (PlaybackMeter { fed: 0, played: 0, channels: 2, sample_rate: 48_000 }),
    {
        PlaybackMeter::new()
    }
}

/// A codec's identifier is its name, byte by byte, the last one lowest.
pub proof fn law_codec_identifier_spells_its_name(c: AudioCodec, i: int)
    requires
        0 <= i < c.spelled().len(),
    ensures
        3 <= c.spelled().len() <= 4,
        c.codec_id() as int / (if c.spelled().len() - 1 - i == 0 {
            1int
        } else if c.spelled().len() - 1 - i == 1 {
            0x100
        } else if c.spelled().len() - 1 - i == 2 {
            0x1_0000
        } else {
            0x100_0000
        }) % 256 == c.spelled()[i] as int,
        c.spelled().len() == 3 ==> c.codec_id() < 0x100_0000,
{
    reveal_strlit("opus");
    reveal_strlit("aac");
    reveal_strlit("flac");
    reveal_strlit("raw");
    assert("opus"@ =~= seq!['o', 'p', 'u', 's']);
    assert("aac"@ =~= seq!['a', 'a', 'c']);
    assert("flac"@ =~= seq!['f', 'l', 'a', 'c']);
    assert("raw"@ =~= seq!['r', 'a', 'w']);
}

/// AAC and FLAC wait for their parameters; Opus and raw audio need none.
pub proof fn law_parameters_are_waited_for(c: AudioCodec)
    ensures
        c.wants_config() <==> c == AudioCodec::Aac || c == AudioCodec::Flac,
        c == AudioCodec::Opus || c == AudioCodec::Raw ==> !c.wants_config(),
        c == AudioCodec::Raw <==> c.index() == 0,
{
}

/// A sample of 16 bits is read back from its two bytes, of which the lower one comes first.
pub proof fn law_sample_is_read_back(data: Seq<u8>, i: int, s: i16)
    requires
        data[2 * i] as int == s as int % 256,
        data[2 * i + 1] as int == (s as int / 256) % 256,
    ensures
        sample_at(data, i) == s,
{
}

/// The backlog is how long what was fed and not played yet takes to play, in whole milliseconds.
pub proof fn law_backlog_is_what_is_left_to_play(m: PlaybackMeter)
    requires
        m.sample_rate > 0,
        m.channels > 0,
        m.fed >= m.played,
    ensures
        m.backlog_ms() * (m.sample_rate * m.channels) <= (m.fed - m.played) * 1000,
        (m.fed - m.played) * 1000 < (m.backlog_ms() + 1) * (m.sample_rate * m.channels),
        m.fed == m.played ==> m.backlog_ms() == 0,
{
    let p = m.sample_rate * m.channels;
    assert(p > 0) by (nonlinear_arith)
        requires
            p == m.sample_rate * m.channels,
            m.sample_rate > 0,
            m.channels > 0,
    ;
    let n = (m.fed - m.played) * 1000;
    vstd::arithmetic::div_mod::lemma_fundamental_div_mod(n, p);
    let q = n / p;
    assert(p * q == q * p) by (nonlinear_arith);
    assert((q + 1) * p == q * p + p) by (nonlinear_arith);
    if m.fed == m.played {
        assert(0 * p == 0) by (nonlinear_arith);
    }
}

} // verus!
