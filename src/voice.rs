//! Deterministic voice profiles: a keyed Keccak-f stream drawn into the
//! bounded parameters of the speech engine's voice model.

use vstd::prelude::*;

verus! {

/// The state that the Keccak-f[1600] permutation makes of `state`.
pub uninterp spec fn keccak_f(state: Seq<u64>) -> Seq<u64>;

/// Relies on `tiny_keccak::keccakf`: applies Keccak-f[1600] (24 rounds) in
/// place to a 25-word state; the new state is a function of the old one.
#[verifier::external_body]
fn keccak_permute(state: &mut [u64; 25])
    ensures
        final(state)@ == keccak_f(old(state)@),
{
    tiny_keccak::keccakf(state);
}

/// The state a stream starts from: the key in each of the 25 words.
pub open spec fn seed_state(key: u64) -> Seq<u64> {
    Seq::new(25, |_i: int| key)
}

/// The state of the stream keyed by `key` after `n` permutations.
pub open spec fn stream_state(key: u64, n: nat) -> Seq<u64>
    decreases n,
{
    if n == 0 {
        seed_state(key)
    } else {
        keccak_f(stream_state(key, (n - 1) as nat))
    }
}

/// The `n`-th word the stream keyed by `key` yields, counted from 1: the
/// first word of the state after `n` permutations.
pub open spec fn stream_word(key: u64, n: nat) -> u64 {
    stream_state(key, n)[0]
}

/// A keyed pseudo-random stream of 64-bit words: each draw permutes the
/// state once and yields its first word.
pub struct KeccakStream {
    state: [u64; 25],
}

impl KeccakStream {
    /// The current 25-word state.
    pub closed spec fn state(&self) -> Seq<u64> {
        self.state@
    }

    /// The stream for `identity` and `roll`, keyed by their exclusive or.
    pub fn new(identity: u64, roll: u64) -> (r: Self)
        ensures
            r.state() == seed_state(identity ^ roll),
    {
        let r = KeccakStream { state: [identity ^ roll; 25] };
        assert(r.state() =~= seed_state(identity ^ roll));
        r
    }

    /// Permutes the state and returns its first word.
    pub fn next_u64(&mut self) -> (word: u64)
        ensures
            final(self).state() == keccak_f(old(self).state()),
            word == final(self).state()[0],
    {
        keccak_permute(&mut self.state);
        self.state[0]
    }
}

/// An inclusive range of parameter values.
#[derive(Debug, Clone, Copy, PartialEq, Eq, Structural)]
pub struct RangeSpec {
    pub min: u16,
    pub max: u16,
}

/// The range spanned around preset `a` by its distance to preset `b`,
/// clamped to the bounds of `u16`.
pub open spec fn preset_range(a: u16, b: u16) -> RangeSpec {
    let delta: int = if a >= b { a - b } else { b - a };
    RangeSpec {
        min: if a - delta < 0 { 0 } else { (a - delta) as u16 },
        max: if a + delta > u16::MAX { u16::MAX } else { (a + delta) as u16 },
    }
}

impl RangeSpec {
    /// The range `a ± |a − b|`, saturated at 0 and `u16::MAX`.
    pub fn from_presets(a: u16, b: u16) -> (r: RangeSpec)
        ensures
            r == preset_range(a, b),
            r.min <= r.max,
    {
        let delta: u16 = if a >= b { a - b } else { b - a };
        RangeSpec { min: a.saturating_sub(delta), max: a.saturating_add(delta) }
    }
}

/// `min + value mod (max − min + 1)`: `value` folded into `min..=max`.
pub open spec fn fold_into(min: u16, max: u16, value: u64) -> u16 {
    (min as int + (value as int) % (max as int - min as int + 1)) as u16
}

/// Folds `value` into the inclusive range `min..=max`.
pub fn u64_to_u16_loop(min: u16, max: u16, value: u64) -> (r: u16)
    requires
        min <= max,
    ensures
        r == fold_into(min, max, value),
        min <= r <= max,
{
    let width: u64 = (max - min) as u64 + 1;
    let offset: u64 = value % width;
    (min as u64 + offset) as u16
}

/// Proof that a folded value lies in its range.
proof fn lemma_fold_into_bounds(min: u16, max: u16, value: u64)
    requires
        min <= max,
    ensures
        min <= fold_into(min, max, value) <= max,
{
    let w = max as int - min as int + 1;
    assert(0 <= (value as int) % w < w);
}

/// The parameters of the speech engine's voice model, in the order in which
/// a profile is drawn and sent to the engine.
#[derive(Debug, Clone, Copy, PartialEq, Eq, Structural)]
pub enum VoiceParam {
    /// Sex: female (0) or male (1).
    Sex,
    /// Head size, in percent.
    HeadSize,
    /// Fourth formant frequency, in Hz.
    Formant4,
    /// Fifth formant frequency, in Hz.
    Formant5,
    /// Fourth formant bandwidth, in Hz.
    Bandwidth4,
    /// Fifth formant bandwidth, in Hz.
    Bandwidth5,
    /// Breathiness, in dB.
    Breathiness,
    /// Lax breathiness, in percent.
    LaxBreathiness,
    /// Smoothness (high frequency attenuation), in percent.
    Smoothness,
    /// Richness, in percent.
    Richness,
    /// Number of fixed samplings of the glottal pulse open phase.
    FixedSamplings,
    /// Laryngealization, in percent.
    Laryngealization,
    /// Baseline fall, in Hz.
    BaselineFall,
    /// Hat rise, in Hz.
    HatRise,
    /// Stress rise, in Hz.
    StressRise,
    /// Assertiveness, in percent.
    Assertiveness,
    /// Quickness, in percent.
    Quickness,
    /// Average pitch, in Hz.
    AveragePitch,
    /// Pitch range, in percent.
    PitchRange,
}

/// Every parameter, in drawing order.
pub open spec fn param_order() -> Seq<VoiceParam> {
    seq![
        VoiceParam::Sex,
        VoiceParam::HeadSize,
        VoiceParam::Formant4,
        VoiceParam::Formant5,
        VoiceParam::Bandwidth4,
        VoiceParam::Bandwidth5,
        VoiceParam::Breathiness,
        VoiceParam::LaxBreathiness,
        VoiceParam::Smoothness,
        VoiceParam::Richness,
        VoiceParam::FixedSamplings,
        VoiceParam::Laryngealization,
        VoiceParam::BaselineFall,
        VoiceParam::HatRise,
        VoiceParam::StressRise,
        VoiceParam::Assertiveness,
        VoiceParam::Quickness,
        VoiceParam::AveragePitch,
        VoiceParam::PitchRange,
    ]
}

/// The inclusive range of each parameter.
pub open spec fn param_range(p: VoiceParam) -> RangeSpec {
    match p {
        VoiceParam::Sex => RangeSpec { min: 0, max: 1 },
        VoiceParam::HeadSize => RangeSpec { min: 65, max: 145 },
        VoiceParam::Formant4 => RangeSpec { min: 2000, max: 4650 },
        VoiceParam::Formant5 => RangeSpec { min: 2500, max: 4950 },
        VoiceParam::Bandwidth4 => RangeSpec { min: 100, max: 2048 },
        VoiceParam::Bandwidth5 => RangeSpec { min: 100, max: 2048 },
        VoiceParam::Breathiness => RangeSpec { min: 0, max: 72 },
        VoiceParam::LaxBreathiness => RangeSpec { min: 0, max: 100 },
        VoiceParam::Smoothness => RangeSpec { min: 0, max: 100 },
        VoiceParam::Richness => RangeSpec { min: 0, max: 100 },
        VoiceParam::FixedSamplings => RangeSpec { min: 0, max: 100 },
        VoiceParam::Laryngealization => RangeSpec { min: 0, max: 100 },
        VoiceParam::BaselineFall => RangeSpec { min: 0, max: 40 },
        VoiceParam::HatRise => RangeSpec { min: 2, max: 100 },
        VoiceParam::StressRise => RangeSpec { min: 1, max: 100 },
        VoiceParam::Assertiveness => RangeSpec { min: 0, max: 100 },
        VoiceParam::Quickness => RangeSpec { min: 0, max: 100 },
        VoiceParam::AveragePitch => RangeSpec { min: 50, max: 350 },
        VoiceParam::PitchRange => RangeSpec { min: 0, max: 250 },
    }
}

/// The engine's two-letter code of each parameter.
pub open spec fn param_code(p: VoiceParam) -> Seq<char> {
    match p {
        VoiceParam::Sex => "sx"@,
        VoiceParam::HeadSize => "hs"@,
        VoiceParam::Formant4 => "f4"@,
        VoiceParam::Formant5 => "f5"@,
        VoiceParam::Bandwidth4 => "b4"@,
        VoiceParam::Bandwidth5 => "b5"@,
        VoiceParam::Breathiness => "br"@,
        VoiceParam::LaxBreathiness => "lx"@,
        VoiceParam::Smoothness => "sm"@,
        VoiceParam::Richness => "ri"@,
        VoiceParam::FixedSamplings => "nf"@,
        VoiceParam::Laryngealization => "la"@,
        VoiceParam::BaselineFall => "bf"@,
        VoiceParam::HatRise => "hr"@,
        VoiceParam::StressRise => "sr"@,
        VoiceParam::Assertiveness => "as"@,
        VoiceParam::Quickness => "qu"@,
        VoiceParam::AveragePitch => "ap"@,
        VoiceParam::PitchRange => "pr"@,
    }
}

impl VoiceParam {
    /// The inclusive range of this parameter.
    pub fn range(self) -> (r: RangeSpec)
        ensures
            r == param_range(self),
            r.min <= r.max,
    {
        match self {
            VoiceParam::Sex => RangeSpec { min: 0, max: 1 },
            VoiceParam::HeadSize => RangeSpec { min: 65, max: 145 },
            VoiceParam::Formant4 => RangeSpec { min: 2000, max: 4650 },
            VoiceParam::Formant5 => RangeSpec { min: 2500, max: 4950 },
            VoiceParam::Bandwidth4 => RangeSpec { min: 100, max: 2048 },
            VoiceParam::Bandwidth5 => RangeSpec { min: 100, max: 2048 },
            VoiceParam::Breathiness => RangeSpec { min: 0, max: 72 },
            VoiceParam::LaxBreathiness => RangeSpec { min: 0, max: 100 },
            VoiceParam::Smoothness => RangeSpec { min: 0, max: 100 },
            VoiceParam::Richness => RangeSpec { min: 0, max: 100 },
            VoiceParam::FixedSamplings => RangeSpec { min: 0, max: 100 },
            VoiceParam::Laryngealization => RangeSpec { min: 0, max: 100 },
            VoiceParam::BaselineFall => RangeSpec { min: 0, max: 40 },
            VoiceParam::HatRise => RangeSpec { min: 2, max: 100 },
            VoiceParam::StressRise => RangeSpec { min: 1, max: 100 },
            VoiceParam::Assertiveness => RangeSpec { min: 0, max: 100 },
            VoiceParam::Quickness => RangeSpec { min: 0, max: 100 },
            VoiceParam::AveragePitch => RangeSpec { min: 50, max: 350 },
            VoiceParam::PitchRange => RangeSpec { min: 0, max: 250 },
        }
    }

    /// The engine's two-letter code of this parameter.
    pub fn code(self) -> (r: &'static str)
        ensures
            r@ == param_code(self),
    {
        match self {
            VoiceParam::Sex => "sx",
            VoiceParam::HeadSize => "hs",
            VoiceParam::Formant4 => "f4",
            VoiceParam::Formant5 => "f5",
            VoiceParam::Bandwidth4 => "b4",
            VoiceParam::Bandwidth5 => "b5",
            VoiceParam::Breathiness => "br",
            VoiceParam::LaxBreathiness => "lx",
            VoiceParam::Smoothness => "sm",
            VoiceParam::Richness => "ri",
            VoiceParam::FixedSamplings => "nf",
            VoiceParam::Laryngealization => "la",
            VoiceParam::BaselineFall => "bf",
            VoiceParam::HatRise => "hr",
            VoiceParam::StressRise => "sr",
            VoiceParam::Assertiveness => "as",
            VoiceParam::Quickness => "qu",
            VoiceParam::AveragePitch => "ap",
            VoiceParam::PitchRange => "pr",
        }
    }

    /// Every parameter, in drawing order.
    pub fn all() -> (r: Vec<VoiceParam>)
        ensures
            r@ == param_order(),
    {
        let r = vec![
            VoiceParam::Sex,
            VoiceParam::HeadSize,
            VoiceParam::Formant4,
            VoiceParam::Formant5,
            VoiceParam::Bandwidth4,
            VoiceParam::Bandwidth5,
            VoiceParam::Breathiness,
            VoiceParam::LaxBreathiness,
            VoiceParam::Smoothness,
            VoiceParam::Richness,
            VoiceParam::FixedSamplings,
            VoiceParam::Laryngealization,
            VoiceParam::BaselineFall,
            VoiceParam::HatRise,
            VoiceParam::StressRise,
            VoiceParam::Assertiveness,
            VoiceParam::Quickness,
            VoiceParam::AveragePitch,
            VoiceParam::PitchRange,
        ];
        assert(r@ =~= param_order());
        r
    }
}

/// A complete voice profile for the speech engine. Each field is named by
/// the engine code of its parameter (`as_` for `as`); see [`VoiceParam`].
#[derive(Debug, Clone, Copy, PartialEq, Eq, Structural)]
pub struct DectalkVoice {
    pub sx: u8,
    pub hs: u16,
    pub f4: u16,
    pub f5: u16,
    pub b4: u16,
    pub b5: u16,
    pub br: u16,
    pub lx: u16,
    pub sm: u16,
    pub ri: u16,
    pub nf: u16,
    pub la: u16,
    pub bf: u16,
    pub hr: u16,
    pub sr: u16,
    pub as_: u16,
    pub qu: u16,
    pub ap: u16,
    pub pr: u16,
}

/// The value a profile gives a parameter.
pub open spec fn param_value(v: DectalkVoice, p: VoiceParam) -> u16 {
    match p {
        VoiceParam::Sex => v.sx as u16,
        VoiceParam::HeadSize => v.hs,
        VoiceParam::Formant4 => v.f4,
        VoiceParam::Formant5 => v.f5,
        VoiceParam::Bandwidth4 => v.b4,
        VoiceParam::Bandwidth5 => v.b5,
        VoiceParam::Breathiness => v.br,
        VoiceParam::LaxBreathiness => v.lx,
        VoiceParam::Smoothness => v.sm,
        VoiceParam::Richness => v.ri,
        VoiceParam::FixedSamplings => v.nf,
        VoiceParam::Laryngealization => v.la,
        VoiceParam::BaselineFall => v.bf,
        VoiceParam::HatRise => v.hr,
        VoiceParam::StressRise => v.sr,
        VoiceParam::Assertiveness => v.as_,
        VoiceParam::Quickness => v.qu,
        VoiceParam::AveragePitch => v.ap,
        VoiceParam::PitchRange => v.pr,
    }
}

/// Every parameter of `v` lies in its range.
pub open spec fn in_range(v: DectalkVoice) -> bool {
    forall|p: VoiceParam|
        param_range(p).min <= #[trigger] param_value(v, p) <= param_range(p).max
}

/// The `n`-th word of the stream keyed by `key`, folded into the range of `p`.
pub open spec fn drawn(key: u64, n: nat, p: VoiceParam) -> u16 {
    fold_into(param_range(p).min, param_range(p).max, stream_word(key, n))
}

/// The profile of `identity` under `roll`: the sex is the parity of the roll;
/// every other parameter, in order, takes the next word of the stream keyed
/// by `identity ^ roll`.
pub open spec fn voice_of(identity: u64, roll: u64) -> DectalkVoice {
    let k = identity ^ roll;
    DectalkVoice {
        sx: (roll % 2) as u8,
        hs: drawn(k, 1, VoiceParam::HeadSize),
        f4: drawn(k, 2, VoiceParam::Formant4),
        f5: drawn(k, 3, VoiceParam::Formant5),
        b4: drawn(k, 4, VoiceParam::Bandwidth4),
        b5: drawn(k, 5, VoiceParam::Bandwidth5),
        br: drawn(k, 6, VoiceParam::Breathiness),
        lx: drawn(k, 7, VoiceParam::LaxBreathiness),
        sm: drawn(k, 8, VoiceParam::Smoothness),
        ri: drawn(k, 9, VoiceParam::Richness),
        nf: drawn(k, 10, VoiceParam::FixedSamplings),
        la: drawn(k, 11, VoiceParam::Laryngealization),
        bf: drawn(k, 12, VoiceParam::BaselineFall),
        hr: drawn(k, 13, VoiceParam::HatRise),
        sr: drawn(k, 14, VoiceParam::StressRise),
        as_: drawn(k, 15, VoiceParam::Assertiveness),
        qu: drawn(k, 16, VoiceParam::Quickness),
        ap: drawn(k, 17, VoiceParam::AveragePitch),
        pr: drawn(k, 18, VoiceParam::PitchRange),
    }
}

/// Draws the next word of `stream` into the range of `p`.
fn draw(stream: &mut KeccakStream, p: VoiceParam) -> (r: u16)
    ensures
        final(stream).state() == keccak_f(old(stream).state()),
        r == fold_into(param_range(p).min, param_range(p).max, final(stream).state()[0]),
{
    let range = p.range();
    let word = stream.next_u64();
    u64_to_u16_loop(range.min, range.max, word)
}

impl DectalkVoice {
    /// The profile of `player_id` under roll `seed`.
    pub fn generate(player_id: u64, seed: u64) -> (r: Self)
        ensures
            r == voice_of(player_id, seed),
            in_range(r),
    {
        let ghost k = player_id ^ seed;
        let mut random = KeccakStream::new(player_id, seed);
        let sx = (seed % 2) as u8;
        assert(random.state() == stream_state(k, 0));
        let hs = draw(&mut random, VoiceParam::HeadSize);
        assert(random.state() == stream_state(k, 1));
        let f4 = draw(&mut random, VoiceParam::Formant4);
        assert(random.state() == stream_state(k, 2));
        let f5 = draw(&mut random, VoiceParam::Formant5);
        assert(random.state() == stream_state(k, 3));
        let b4 = draw(&mut random, VoiceParam::Bandwidth4);
        assert(random.state() == stream_state(k, 4));
        let b5 = draw(&mut random, VoiceParam::Bandwidth5);
        assert(random.state() == stream_state(k, 5));
        let br = draw(&mut random, VoiceParam::Breathiness);
        assert(random.state() == stream_state(k, 6));
        let lx = draw(&mut random, VoiceParam::LaxBreathiness);
        assert(random.state() == stream_state(k, 7));
        let sm = draw(&mut random, VoiceParam::Smoothness);
        assert(random.state() == stream_state(k, 8));
        let ri = draw(&mut random, VoiceParam::Richness);
        assert(random.state() == stream_state(k, 9));
        let nf = draw(&mut random, VoiceParam::FixedSamplings);
        assert(random.state() == stream_state(k, 10));
        let la = draw(&mut random, VoiceParam::Laryngealization);
        assert(random.state() == stream_state(k, 11));
        let bf = draw(&mut random, VoiceParam::BaselineFall);
        assert(random.state() == stream_state(k, 12));
        let hr = draw(&mut random, VoiceParam::HatRise);
        assert(random.state() == stream_state(k, 13));
        let sr = draw(&mut random, VoiceParam::StressRise);
        assert(random.state() == stream_state(k, 14));
        let as_ = draw(&mut random, VoiceParam::Assertiveness);
        assert(random.state() == stream_state(k, 15));
        let qu = draw(&mut random, VoiceParam::Quickness);
        assert(random.state() == stream_state(k, 16));
        let ap = draw(&mut random, VoiceParam::AveragePitch);
        assert(random.state() == stream_state(k, 17));
        let pr = draw(&mut random, VoiceParam::PitchRange);
        assert(random.state() == stream_state(k, 18));
        let r = Self {
            sx,
            hs,
            f4,
            f5,
            b4,
            b5,
            br,
            lx,
            sm,
            ri,
            nf,
            la,
            bf,
            hr,
            sr,
            as_,
            qu,
            ap,
            pr,
        };
        proof {
            lemma_voice_in_range(player_id, seed);
        }
        r
    }

    /// The value this profile gives `p`.
    pub fn value(&self, p: VoiceParam) -> (r: u16)
        ensures
            r == param_value(*self, p),
    {
        match p {
            VoiceParam::Sex => self.sx as u16,
            VoiceParam::HeadSize => self.hs,
            VoiceParam::Formant4 => self.f4,
            VoiceParam::Formant5 => self.f5,
            VoiceParam::Bandwidth4 => self.b4,
            VoiceParam::Bandwidth5 => self.b5,
            VoiceParam::Breathiness => self.br,
            VoiceParam::LaxBreathiness => self.lx,
            VoiceParam::Smoothness => self.sm,
            VoiceParam::Richness => self.ri,
            VoiceParam::FixedSamplings => self.nf,
            VoiceParam::Laryngealization => self.la,
            VoiceParam::BaselineFall => self.bf,
            VoiceParam::HatRise => self.hr,
            VoiceParam::StressRise => self.sr,
            VoiceParam::Assertiveness => self.as_,
            VoiceParam::Quickness => self.qu,
            VoiceParam::AveragePitch => self.ap,
            VoiceParam::PitchRange => self.pr,
        }
    }
}

/// Generation is a function of identity and roll: two profiles generated
/// from the same pair are equal.
pub proof fn lemma_generate_deterministic(
    identity: u64,
    roll: u64,
    first: DectalkVoice,
    second: DectalkVoice,
)
    requires
        first == voice_of(identity, roll),
        second == voice_of(identity, roll),
    ensures
        first == second,
{
}

/// Every parameter of every generated profile lies in its range.
pub proof fn lemma_voice_in_range(identity: u64, roll: u64)
    ensures
        in_range(voice_of(identity, roll)),
{
    let k = identity ^ roll;
    assert forall|p: VoiceParam|
        param_range(p).min <= #[trigger] param_value(voice_of(identity, roll), p)
            <= param_range(p).max by {
        let n: nat = match p {
            VoiceParam::Sex => 0,
            VoiceParam::HeadSize => 1,
            VoiceParam::Formant4 => 2,
            VoiceParam::Formant5 => 3,
            VoiceParam::Bandwidth4 => 4,
            VoiceParam::Bandwidth5 => 5,
            VoiceParam::Breathiness => 6,
            VoiceParam::LaxBreathiness => 7,
            VoiceParam::Smoothness => 8,
            VoiceParam::Richness => 9,
            VoiceParam::FixedSamplings => 10,
            VoiceParam::Laryngealization => 11,
            VoiceParam::BaselineFall => 12,
            VoiceParam::HatRise => 13,
            VoiceParam::StressRise => 14,
            VoiceParam::Assertiveness => 15,
            VoiceParam::Quickness => 16,
            VoiceParam::AveragePitch => 17,
            VoiceParam::PitchRange => 18,
        };
        if n > 0 {
            lemma_fold_into_bounds(param_range(p).min, param_range(p).max, stream_word(k, n));
        }
    }
}

/// The roll matters: for every identity, rolls 0 and 1 give different
/// profiles.
pub proof fn lemma_roll_changes_voice(identity: u64)
    ensures
        voice_of(identity, 0) != voice_of(identity, 1),
{
    assert(voice_of(identity, 0).sx != voice_of(identity, 1).sx);
}

/// The decimal digit `d` as a character.
pub open spec fn digit_char(d: nat) -> char {
    seq!['0', '1', '2', '3', '4', '5', '6', '7', '8', '9'][d as int]
}

/// The decimal numeral of `n`, without leading zeros.
pub open spec fn decimal(n: nat) -> Seq<char>
    decreases n,
{
    if n < 10 {
        seq![digit_char(n)]
    } else {
        decimal(n / 10).push(digit_char(n % 10))
    }
}

/// The digit `d` as a one-character string.
fn digit_str(d: u16) -> (r: &'static str)
    requires
        d < 10,
    ensures
        r@ == seq![digit_char(d as nat)],
{
    proof {
        reveal_strlit("0");
        reveal_strlit("1");
        reveal_strlit("2");
        reveal_strlit("3");
        reveal_strlit("4");
        reveal_strlit("5");
        reveal_strlit("6");
        reveal_strlit("7");
        reveal_strlit("8");
        reveal_strlit("9");
    }
    let r = match d {
        0 => "0",
        1 => "1",
        2 => "2",
        3 => "3",
        4 => "4",
        5 => "5",
        6 => "6",
        7 => "7",
        8 => "8",
        _ => "9",
    };
    assert(r@ =~= seq![digit_char(d as nat)]);
    r
}

/// Appends the decimal numeral of `n` to `out`.
fn push_decimal(out: &mut String, n: u16)
    ensures
        final(out)@ == old(out)@ + decimal(n as nat),
    decreases n,
{
    if n >= 10 {
        push_decimal(out, n / 10);
    }
    out.append(digit_str(n % 10));
    assert(out@ =~= old(out)@ + decimal(n as nat));
}

/// The engine command that sets parameter `p` to `value`.
pub open spec fn dv_command(p: VoiceParam, value: u16) -> Seq<char> {
    "[:dv "@ + param_code(p) + " "@ + decimal(value as nat) + "]"@
}

/// The line break that precedes every second command.
pub open spec fn command_break(i: int) -> Seq<char> {
    if i % 2 == 0 {
        "\n        "@
    } else {
        Seq::empty()
    }
}

/// The commands that set the first `n` parameters of `v`, two to a line.
pub open spec fn param_commands(v: DectalkVoice, n: nat) -> Seq<char>
    decreases n,
{
    if n == 0 {
        Seq::empty()
    } else {
        let p = param_order()[n - 1];
        param_commands(v, (n - 1) as nat) + command_break(n - 1) + dv_command(p, param_value(v, p))
    }
}

/// The engine's control sequence for `v`: phoneme input on, the designer
/// voice selected, then one command per parameter.
pub open spec fn control_text(v: DectalkVoice) -> Seq<char> {
    "[:phoneme on][:nv]"@ + param_commands(v, param_order().len())
}

impl DectalkVoice {
    /// The control sequence that makes the speech engine speak in this voice.
    pub fn control_sequence(&self) -> (r: String)
        ensures
            r@ == control_text(*self),
    {
        let params = VoiceParam::all();
        let mut out = String::from_str("[:phoneme on][:nv]");
        let mut i: usize = 0;
        while i < params.len()
            invariant
                params@ == param_order(),
                i <= params@.len(),
                out@ == "[:phoneme on][:nv]"@ + param_commands(*self, i as nat),
            decreases params@.len() - i,
        {
            let p = params[i];
            let ghost before = out@;
            if i % 2 == 0 {
                out.append("\n        ");
            }
            assert(out@ == before + command_break(i as int));
            out.append("[:dv ");
            out.append(p.code());
            out.append(" ");
            push_decimal(&mut out, self.value(p));
            out.append("]");
            assert(out@ =~= "[:phoneme on][:nv]"@ + param_commands(*self, (i + 1) as nat));
            i += 1;
        }
        out
    }
}

/// The speech engine's stock male voice.
pub open spec fn paul_spec() -> DectalkVoice {
    DectalkVoice {
        sx: 1,
        hs: 100,
        f4: 3300,
        f5: 3650,
        b4: 260,
        b5: 330,
        br: 0,
        lx: 0,
        sm: 3,
        ri: 70,
        nf: 0,
        la: 0,
        bf: 18,
        hr: 18,
        sr: 32,
        as_: 100,
        qu: 40,
        ap: 112,
        pr: 100,
    }
}

/// The speech engine's stock male voice.
pub fn paul_voice() -> (r: DectalkVoice)
    ensures
        r == paul_spec(),
        in_range(r),
{
    DectalkVoice {
        sx: 1,
        hs: 100,
        f4: 3300,
        f5: 3650,
        b4: 260,
        b5: 330,
        br: 0,
        lx: 0,
        sm: 3,
        ri: 70,
        nf: 0,
        la: 0,
        bf: 18,
        hr: 18,
        sr: 32,
        as_: 100,
        qu: 40,
        ap: 112,
        pr: 100,
    }
}

} // verus!
