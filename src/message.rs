//! Cleaning chat messages for speech, and the roll requests inside them.

use crate::wav::WavTiming;
use vstd::prelude::*;

verus! {

/// A web link: scheme, then everything up to the next whitespace.
pub const LINK_PATTERN: &'static str = r"https?://[^\s/$.?#].[^\s]*";

/// A custom emoji, `<:name:id>` or `<a:name:id>`, capturing its name.
pub const EMOJI_PATTERN: &'static str = r"<a?:(\w+):\d+>";

/// A roll request, `[:roll N]`, capturing the number.
pub const ROLL_PATTERN: &'static str = r"\[:roll\s*(\d+)\s*\]";

/// The result of replacing every match of `pattern` in `text` by
/// `replacement` (with `$n` standing for capture group `n`); `None` when
/// `pattern` is not a valid regular expression.
pub uninterp spec fn regex_replaced(
    pattern: Seq<char>,
    text: Seq<char>,
    replacement: Seq<char>,
) -> Option<Seq<char>>;

/// The text of capture group 1 in the leftmost match of `pattern` in
/// `text`, if there is a match and the group takes part in it; the outer
/// `None` when `pattern` is not a valid regular expression.
pub uninterp spec fn regex_group(pattern: Seq<char>, text: Seq<char>) -> Option<Option<Seq<char>>>;

/// Relies on `regex::Regex::new` and `Regex::replace_all`: the result
/// depends on the pattern, the text and the replacement alone.
#[verifier::external_body]
fn regex_replace_all(pattern: &str, text: &str, replacement: &str) -> (r: Option<String>)
    ensures
        match r {
            Some(s) => regex_replaced(pattern@, text@, replacement@) == Some(s@),
            None => regex_replaced(pattern@, text@, replacement@) is None,
        },
{
    let re = regex::Regex::new(pattern).ok()?;
    Some(re.replace_all(text, replacement).into_owned())
}

/// Relies on `regex::Regex::new`, `Regex::captures` and `Captures::get`:
/// the result depends on the pattern and the text alone.
#[verifier::external_body]
fn regex_first_group(pattern: &str, text: &str) -> (r: Option<Option<String>>)
    ensures
        match r {
            Some(Some(s)) => regex_group(pattern@, text@) == Some(Some(s@)),
            Some(None) => regex_group(pattern@, text@) == Some(None::<Seq<char>>),
            None => regex_group(pattern@, text@) is None,
        },
{
    let re = regex::Regex::new(pattern).ok()?;
    Some(re.captures(text).and_then(|c| c.get(1)).map(|m| m.as_str().to_string()))
}

/// `text` with every match of `pattern` replaced; `text` itself when the
/// pattern does not compile.
pub open spec fn replaced_or_kept(pattern: Seq<char>, text: Seq<char>, replacement: Seq<char>) -> Seq<
    char,
> {
    match regex_replaced(pattern, text, replacement) {
        Some(s) => s,
        None => text,
    }
}

fn replace_or_keep(pattern: &str, text: &str, replacement: &str) -> (r: String)
    ensures
        r@ == replaced_or_kept(pattern@, text@, replacement@),
{
    match regex_replace_all(pattern, text, replacement) {
        Some(s) => s,
        None => text.to_string(),
    }
}

/// Unicode's `White_Space` characters.
pub open spec fn white_space(c: char) -> bool {
    ||| '\u{9}' <= c <= '\u{d}'
    ||| c == ' '
    ||| c == '\u{85}'
    ||| c == '\u{a0}'
    ||| c == '\u{1680}'
    ||| '\u{2000}' <= c <= '\u{200a}'
    ||| c == '\u{2028}'
    ||| c == '\u{2029}'
    ||| c == '\u{202f}'
    ||| c == '\u{205f}'
    ||| c == '\u{3000}'
}

/// `s` without its leading white space.
pub open spec fn trim_start(s: Seq<char>) -> Seq<char>
    decreases s.len(),
{
    if s.len() > 0 && white_space(s[0]) {
        trim_start(s.drop_first())
    } else {
        s
    }
}

/// `s` without its trailing white space.
pub open spec fn trim_end(s: Seq<char>) -> Seq<char>
    decreases s.len(),
{
    if s.len() > 0 && white_space(s.last()) {
        trim_end(s.drop_last())
    } else {
        s
    }
}

/// `s` without leading and trailing white space.
pub open spec fn trimmed(s: Seq<char>) -> Seq<char> {
    trim_end(trim_start(s))
}

/// Relies on `str::trim`: removes leading and trailing characters with
/// Unicode's `White_Space` property.
#[verifier::external_body]
fn trim(s: &str) -> (r: &str)
    ensures
        r@ == trimmed(s@),
{
    s.trim()
}

/// The value of a string of decimal digits.
pub open spec fn digits_value(s: Seq<char>) -> int
    decreases s.len(),
{
    if s.len() == 0 {
        0
    } else {
        digits_value(s.drop_last()) * 10 + (s.last() as int - '0' as int)
    }
}

/// `s` without a leading `+`.
pub open spec fn without_plus(s: Seq<char>) -> Seq<char> {
    if s.len() > 0 && s[0] == '+' {
        s.drop_first()
    } else {
        s
    }
}

/// What `u64` parsing makes of `s`: an optional `+`, then one or more ASCII
/// digits whose value fits in `u64`.
pub open spec fn parsed_u64(s: Seq<char>) -> Option<u64> {
    let t = without_plus(s);
    if t.len() == 0 || exists|i: int| 0 <= i < t.len() && !('0' <= #[trigger] t[i] <= '9') {
        None
    } else if digits_value(t) > u64::MAX {
        None
    } else {
        Some(digits_value(t) as u64)
    }
}

/// A string of ASCII digits has a value of at least 0, and a digit more
/// multiplies it by ten and adds that digit.
proof fn lemma_digits_value_step(s: Seq<char>, c: char)
    requires
        forall|i: int| 0 <= i < s.len() ==> '0' <= #[trigger] s[i] <= '9',
        '0' <= c <= '9',
    ensures
        digits_value(s) >= 0,
        digits_value(s.push(c)) == digits_value(s) * 10 + (c as int - '0' as int),
    decreases s.len(),
{
    if s.len() > 0 {
        lemma_digits_value_step(s.drop_last(), s.last());
        assert(s.drop_last().push(s.last()) =~= s);
    }
    assert(s.push(c).drop_last() =~= s);
}

/// Parses `s` as `u64` parsing does: an optional `+`, then one or more
/// ASCII digits whose value fits in `u64`.
fn parse_u64(s: &str) -> (r: Option<u64>)
    ensures
        r == parsed_u64(s@),
{
    let mut cs: Vec<char> = Vec::new();
    for c in it: s.chars()
        invariant
            it.seq() == s@,
            cs@ == it.seq().take(it.index()),
    {
        cs.push(c);
    }
    assert(cs@ =~= s@);
    let n = cs.len();
    let start: usize = if n > 0 && cs[0] == '+' {
        1
    } else {
        0
    };
    let ghost t = cs@.subrange(start as int, n as int);
    assert(t =~= without_plus(s@));
    if start == n {
        return None;
    }
    let mut value: u64 = 0;
    let mut overflow = false;
    let mut i: usize = start;
    while i < n
        invariant
            cs@ == s@,
            n == cs@.len(),
            start <= i <= n,
            t == cs@.subrange(start as int, n as int),
            t == without_plus(s@),
            forall|k: int| start <= k < i ==> '0' <= #[trigger] cs@[k] <= '9',
            !overflow ==> value == digits_value(cs@.subrange(start as int, i as int)),
            overflow ==> digits_value(cs@.subrange(start as int, i as int)) > u64::MAX,
        decreases n - i,
    {
        let c = cs[i];
        let digit: u64 = match c {
            '0' => 0,
            '1' => 1,
            '2' => 2,
            '3' => 3,
            '4' => 4,
            '5' => 5,
            '6' => 6,
            '7' => 7,
            '8' => 8,
            '9' => 9,
            _ => {
                assert(!('0' <= t[i - start] <= '9'));
                assert(exists|k: int| 0 <= k < t.len() && !('0' <= #[trigger] t[k] <= '9'));
                return None;
            },
        };
        assert(digit == c as int - '0' as int);
        let ghost prefix = cs@.subrange(start as int, i as int);
        proof {
            lemma_digits_value_step(prefix, c);
            assert(cs@.subrange(start as int, i + 1) =~= prefix.push(c));
        }
        if !overflow {
            if value > (u64::MAX - digit) / 10 {
                overflow = true;
            } else {
                value = value * 10 + digit;
            }
        }
        i += 1;
    }
    assert(cs@.subrange(start as int, n as int) == t);
    assert forall|k: int| 0 <= k < t.len() implies '0' <= #[trigger] t[k] <= '9' by {
        assert(t[k] == cs@[start + k]);
    }
    if overflow {
        None
    } else {
        Some(value)
    }
}

/// `text` without web links.
pub fn remove_links(text: &str) -> (r: String)
    ensures
        r@ == replaced_or_kept(LINK_PATTERN@, text@, ""@),
{
    replace_or_keep(LINK_PATTERN, text, "")
}

/// `text` with each custom emoji replaced by its name.
pub fn replace_discord_emojis(text: &str) -> (r: String)
    ensures
        r@ == replaced_or_kept(EMOJI_PATTERN@, text@, "$1"@),
{
    replace_or_keep(EMOJI_PATTERN, text, "$1")
}

/// The words of a message to speak: links removed, emojis named, and the
/// white space around it trimmed.
pub fn process_message(text: &str) -> (r: String)
    ensures
        r@ == trimmed(
            replaced_or_kept(EMOJI_PATTERN@, replaced_or_kept(LINK_PATTERN@, text@, ""@), "$1"@),
        ),
{
    let text = remove_links(text);
    let text = replace_discord_emojis(text.as_str());
    trim(text.as_str()).to_string()
}

/// The roll that the first roll request of a message asks for, if it holds
/// one whose number fits in `u64`.
pub fn get_requested_roll(content: &str) -> (r: Option<u64>)
    ensures
        r == match regex_group(ROLL_PATTERN@, content@) {
            Some(Some(digits)) => parsed_u64(digits),
            _ => None,
        },
{
    match regex_first_group(ROLL_PATTERN, content) {
        Some(Some(digits)) => parse_u64(digits.as_str()),
        _ => None,
    }
}

/// `content` without its roll requests.
pub fn remove_requested_roll(content: &str) -> (r: String)
    ensures
        r@ == replaced_or_kept(ROLL_PATTERN@, content@, ""@),
{
    replace_or_keep(ROLL_PATTERN, content, "")
}

/// The longest message, in bytes, that anyone but the owner may have spoken.
pub const MAX_MESSAGE_BYTES: usize = 256;

/// The longest speech, in seconds, that anyone but the owner may have played.
pub const MAX_SPEECH_SECONDS: u64 = 15;

/// Whether a message of `len` bytes may be spoken: the owner's always,
/// anyone else's up to the byte limit.
pub fn may_speak(is_owner: bool, len: usize) -> (r: bool)
    ensures
        r == (is_owner || len <= MAX_MESSAGE_BYTES),
{
    is_owner || len <= MAX_MESSAGE_BYTES
}

/// Whether speech of this timing may be played: the owner's always, anyone
/// else's when it lasts no longer than the time limit.
pub fn may_play(is_owner: bool, timing: &WavTiming) -> (r: bool)
    ensures
        r == (is_owner || timing.data_size <= MAX_SPEECH_SECONDS * timing.block_align
            * timing.sample_rate),
{
    is_owner || !timing.longer_than(MAX_SPEECH_SECONDS)
}

} // verus!
