//! Routing of effect parameter updates: which effect and parameter an
//! update names, and which updates are refused.
//!
//! Parameter values are applied by the caller; the library decides where
//! they go. EQ parameters are named "band<N>_<param>".

use vstd::prelude::*;
use crate::text::{chars_of, str_eq};

verus! {

/// A parameter of an EQ band.
#[derive(Debug, Clone, Copy, PartialEq, Eq, Structural)]
pub enum EqParam {
    Frequency,
    Gain,
    Q,
}

/// A compressor parameter.
#[derive(Debug, Clone, Copy, PartialEq, Eq, Structural)]
pub enum CompressorParam {
    Threshold,
    Ratio,
    Attack,
    Release,
    Knee,
    Makeup,
}

/// A reverb parameter.
#[derive(Debug, Clone, Copy, PartialEq, Eq, Structural)]
pub enum ReverbParam {
    RoomSize,
    Decay,
    PreDelay,
    WetDry,
}

/// A delay parameter.
#[derive(Debug, Clone, Copy, PartialEq, Eq, Structural)]
pub enum DelayParam {
    Time,
    Feedback,
    WetDry,
}

/// Where an effect update goes.
#[derive(Debug, Clone, Copy, PartialEq, Eq, Structural)]
pub enum EffectTarget {
    /// A parameter of one of the four EQ bands
    EqBand(usize, EqParam),
    /// The EQ's switch
    EqEnabled,
    /// The compressor's switch
    CompressorEnabled,
    /// A compressor parameter
    Compressor(CompressorParam),
    /// The reverb's switch
    ReverbEnabled,
    /// A reverb parameter
    Reverb(ReverbParam),
    /// The delay's switch
    DelayEnabled,
    /// A delay parameter
    Delay(DelayParam),
    /// An EQ update that names nothing to change
    Ignored,
}

/// The value of decimal digits.
pub open spec fn digits_value(s: Seq<char>) -> nat
    decreases s.len(),
{
    if s.len() == 0 {
        0
    } else {
        digits_value(s.drop_last()) * 10 + ((s.last() as u32 - '0' as u32) as nat)
    }
}

/// Whether every character is a decimal digit.
pub open spec fn all_digits(s: Seq<char>) -> bool {
    forall|i: int| 0 <= i < s.len() ==> '0' <= #[trigger] s[i] && s[i] <= '9'
}

/// What `usize::from_str` gives: an optional '+' and at least one decimal
/// digit, of a value that fits.
pub open spec fn parsed_usize(s: Seq<char>) -> Option<nat> {
    let digits = if s.len() > 0 && s[0] == '+' {
        s.drop_first()
    } else {
        s
    };
    if digits.len() > 0 && all_digits(digits) && digits_value(digits) <= usize::MAX {
        Some(digits_value(digits))
    } else {
        None
    }
}

/// Parses an unsigned decimal number, as `usize::from_str` does.
pub fn parse_usize(s: &Vec<char>) -> (r: Option<usize>)
    ensures
        match parsed_usize(s@) {
            Some(v) => r == Some(v as usize),
            None => r is None,
        },
{
    let start: usize = if s.len() > 0 && s[0] == '+' {
        1
    } else {
        0
    };
    let ghost digits = if s@.len() > 0 && s@[0] == '+' {
        s@.drop_first()
    } else {
        s@
    };
    proof {
        assert(digits =~= s@.subrange(start as int, s@.len() as int));
    }
    if start >= s.len() {
        return None;
    }
    let mut value: usize = 0;
    let mut i: usize = start;
    while i < s.len()
        invariant
            start <= i <= s@.len(),
            digits == s@.subrange(start as int, s@.len() as int),
            digits == (if s@.len() > 0 && s@[0] == '+' {
                s@.drop_first()
            } else {
                s@
            }),
            all_digits(s@.subrange(start as int, i as int)),
            value as nat == digits_value(s@.subrange(start as int, i as int)),
        decreases s@.len() - i,
    {
        let c = s[i];
        let ghost pre = s@.subrange(start as int, i as int);
        proof {
            assert(s@.subrange(start as int, i + 1) =~= pre.push(c));
            assert(pre.push(c).drop_last() =~= pre);
        }
        if !('0' <= c && c <= '9') {
            proof {
                assert(digits[i - start] == c);
                assert(!all_digits(digits));
                assert(parsed_usize(s@) is None);
            }
            return None;
        }
        let d = (c as u32 - '0' as u32) as usize;
        if value > (usize::MAX - d) / 10 {
            proof {
                assert(digits.subrange(0, i - start + 1) =~= pre.push(c));
                assert(digits_value(pre.push(c)) == digits_value(pre) * 10 + d);
                assert(digits_value(pre.push(c)) > usize::MAX) by (nonlinear_arith)
                    requires
                        digits_value(pre.push(c)) == value * 10 + d,
                        value > (usize::MAX - d) / 10,
                        d <= 9,
                ;
                if all_digits(digits) {
                    lemma_digits_value_prefix(digits, i - start + 1);
                    assert(digits_value(digits) > usize::MAX);
                }
                assert(parsed_usize(s@) is None);
            }
            return None;
        }
        value = value * 10 + d;
        i = i + 1;
    }
    proof {
        assert(s@.subrange(start as int, s@.len() as int) =~= digits);
    }
    Some(value)
}

/// The value of digits never falls when more digits follow.
pub proof fn lemma_digits_value_prefix(s: Seq<char>, n: int)
    requires
        0 <= n <= s.len(),
        all_digits(s),
    ensures
        digits_value(s.subrange(0, n)) <= digits_value(s),
    decreases s.len() - n,
{
    if n < s.len() {
        lemma_digits_value_prefix(s, n + 1);
        assert(s.subrange(0, n + 1).drop_last() =~= s.subrange(0, n));
        let _ = s[n];
    } else {
        assert(s.subrange(0, n) =~= s);
    }
}

/// The index of the first `c` in `s`, if any.
pub open spec fn first_char(s: Seq<char>, c: char) -> Option<int> {
    if s.contains(c) {
        Some(choose|i: int| 0 <= i < s.len() && s[i] == c && forall|j: int| 0 <= j < i ==> s[j] != c)
    } else {
        None
    }
}

/// The EQ parameter named `p`.
pub open spec fn eq_param(p: Seq<char>) -> Option<EqParam> {
    if p == "freq"@ {
        Some(EqParam::Frequency)
    } else if p == "gain"@ {
        Some(EqParam::Gain)
    } else if p == "q"@ {
        Some(EqParam::Q)
    } else {
        None
    }
}

/// Where an EQ update goes: "enabled" is the switch; "band<N>_<param>"
/// with a number that parses names a band parameter, a band of four or
/// more or an unknown parameter being refused; anything else changes
/// nothing.
pub open spec fn eq_route(parameter: Seq<char>) -> Result<EffectTarget, Seq<char>> {
    if parameter.len() >= 4 && parameter.subrange(0, 4) == "band"@ {
        let rest = parameter.subrange(4, parameter.len() as int);
        match first_char(rest, '_') {
            Some(k) => match parsed_usize(rest.subrange(0, k)) {
                Some(band) => if band >= 4 {
                    Err("EQ band must be 0-3"@)
                } else {
                    match eq_param(rest.subrange(k + 1, rest.len() as int)) {
                        Some(p) => Ok(EffectTarget::EqBand(band as usize, p)),
                        None => Err("Unknown EQ parameter"@),
                    }
                },
                None => Ok(EffectTarget::Ignored),
            },
            None => Ok(EffectTarget::Ignored),
        }
    } else if parameter == "enabled"@ {
        Ok(EffectTarget::EqEnabled)
    } else {
        Ok(EffectTarget::Ignored)
    }
}

/// Where a compressor update goes.
pub open spec fn compressor_route(p: Seq<char>) -> Result<EffectTarget, Seq<char>> {
    if p == "enabled"@ {
        Ok(EffectTarget::CompressorEnabled)
    } else if p == "threshold"@ {
        Ok(EffectTarget::Compressor(CompressorParam::Threshold))
    } else if p == "ratio"@ {
        Ok(EffectTarget::Compressor(CompressorParam::Ratio))
    } else if p == "attack"@ {
        Ok(EffectTarget::Compressor(CompressorParam::Attack))
    } else if p == "release"@ {
        Ok(EffectTarget::Compressor(CompressorParam::Release))
    } else if p == "knee"@ {
        Ok(EffectTarget::Compressor(CompressorParam::Knee))
    } else if p == "makeup"@ {
        Ok(EffectTarget::Compressor(CompressorParam::Makeup))
    } else {
        Err("Unknown compressor parameter"@)
    }
}

/// Where a reverb update goes.
pub open spec fn reverb_route(p: Seq<char>) -> Result<EffectTarget, Seq<char>> {
    if p == "enabled"@ {
        Ok(EffectTarget::ReverbEnabled)
    } else if p == "room_size"@ {
        Ok(EffectTarget::Reverb(ReverbParam::RoomSize))
    } else if p == "decay"@ {
        Ok(EffectTarget::Reverb(ReverbParam::Decay))
    } else if p == "pre_delay"@ {
        Ok(EffectTarget::Reverb(ReverbParam::PreDelay))
    } else if p == "wet_dry"@ || p == "mix"@ {
        Ok(EffectTarget::Reverb(ReverbParam::WetDry))
    } else {
        Err("Unknown reverb parameter"@)
    }
}

/// Where a delay update goes.
pub open spec fn delay_route(p: Seq<char>) -> Result<EffectTarget, Seq<char>> {
    if p == "enabled"@ {
        Ok(EffectTarget::DelayEnabled)
    } else if p == "time"@ {
        Ok(EffectTarget::Delay(DelayParam::Time))
    } else if p == "feedback"@ {
        Ok(EffectTarget::Delay(DelayParam::Feedback))
    } else if p == "wet_dry"@ || p == "mix"@ {
        Ok(EffectTarget::Delay(DelayParam::WetDry))
    } else {
        Err("Unknown delay parameter"@)
    }
}

/// Where an update of `parameter` of `effect` goes, or why it is refused.
pub open spec fn effect_route(effect: Seq<char>, parameter: Seq<char>) -> Result<EffectTarget, Seq<char>> {
    if effect == "eq"@ {
        eq_route(parameter)
    } else if effect == "compressor"@ {
        compressor_route(parameter)
    } else if effect == "reverb"@ {
        reverb_route(parameter)
    } else if effect == "delay"@ {
        delay_route(parameter)
    } else {
        Err("Unknown effect: "@ + effect)
    }
}

/// The position of the first `c`.
fn find_char(s: &Vec<char>, c: char) -> (r: Option<usize>)
    ensures
        match r {
            Some(i) => i < s@.len() && first_char(s@, c) == Some(i as int),
            None => first_char(s@, c) is None,
        },
{
    let mut i: usize = 0;
    while i < s.len()
        invariant
            i <= s@.len(),
            forall|j: int| 0 <= j < i ==> s@[j] != c,
        decreases s@.len() - i,
    {
        if s[i] == c {
            proof {
                assert(s@.contains(c));
                let k = choose|k: int| 0 <= k < s@.len() && s@[k] == c && forall|j: int| 0 <= j < k ==> s@[j] != c;
                assert(k == i as int) by {
                    if k > i {
                        assert(s@[i as int] == c);
                    }
                }
            }
            return Some(i);
        }
        i = i + 1;
    }
    None
}

/// The characters of `s` from `from` up to `to`.
fn slice_chars(s: &Vec<char>, from: usize, to: usize) -> (r: Vec<char>)
    requires
        from <= to <= s@.len(),
    ensures
        r@ == s@.subrange(from as int, to as int),
{
    let mut r: Vec<char> = Vec::new();
    let mut i: usize = from;
    while i < to
        invariant
            from <= i <= to,
            to <= s@.len(),
            r@ == s@.subrange(from as int, i as int),
        decreases to - i,
    {
        r.push(s[i]);
        proof {
            assert(s@.subrange(from as int, i + 1) =~= s@.subrange(from as int, i as int).push(s@[i as int]));
        }
        i = i + 1;
    }
    r
}

/// Whether two character sequences are equal.
fn chars_eq(a: &Vec<char>, b: &str) -> (r: bool)
    ensures
        r == (a@ == b@),
{
    let bc = chars_of(b);
    if a.len() != bc.len() {
        return false;
    }
    let mut i: usize = 0;
    while i < a.len()
        invariant
            bc@ == b@,
            a@.len() == bc@.len(),
            i <= a@.len(),
            forall|j: int| 0 <= j < i ==> a@[j] == bc@[j],
        decreases a@.len() - i,
    {
        if a[i] != bc[i] {
            proof {
                assert(a@[i as int] != b@[i as int]);
            }
            return false;
        }
        i = i + 1;
    }
    proof {
        assert(a@ =~= b@);
    }
    true
}

/// Where an EQ update goes.
fn route_eq(parameter: &str) -> (r: Result<EffectTarget, String>)
    ensures
        match eq_route(parameter@) {
            Ok(t) => r == Ok::<EffectTarget, String>(t),
            Err(m) => r is Err && r->Err_0@ == m,
        },
{
    let p = chars_of(parameter);
    let head_is_band = p.len() >= 4 && {
        let head = slice_chars(&p, 0, 4);
        chars_eq(&head, "band")
    };
    if head_is_band {
        let rest = slice_chars(&p, 4, p.len());
        proof {
            assert(rest@ == parameter@.subrange(4, parameter@.len() as int));
        }
        match find_char(&rest, '_') {
            Some(k) => {
                let number = slice_chars(&rest, 0, k);
                match parse_usize(&number) {
                    Some(band) => {
                        if band >= 4 {
                            return Err(String::from_str("EQ band must be 0-3"));
                        }
                        let name = slice_chars(&rest, k + 1, rest.len());
                        if chars_eq(&name, "freq") {
                            Ok(EffectTarget::EqBand(band, EqParam::Frequency))
                        } else if chars_eq(&name, "gain") {
                            Ok(EffectTarget::EqBand(band, EqParam::Gain))
                        } else if chars_eq(&name, "q") {
                            Ok(EffectTarget::EqBand(band, EqParam::Q))
                        } else {
                            Err(String::from_str("Unknown EQ parameter"))
                        }
                    },
                    None => Ok(EffectTarget::Ignored),
                }
            },
            None => Ok(EffectTarget::Ignored),
        }
    } else if str_eq(parameter, "enabled") {
        Ok(EffectTarget::EqEnabled)
    } else {
        Ok(EffectTarget::Ignored)
    }
}

/// Route an update of `parameter` of `effect`: the target it changes, or
/// the reason it is refused.
pub fn route_effect_update(effect: &str, parameter: &str) -> (r: Result<EffectTarget, String>)
    ensures
        match effect_route(effect@, parameter@) {
            Ok(t) => r == Ok::<EffectTarget, String>(t),
            Err(m) => r is Err && r->Err_0@ == m,
        },
{
    if str_eq(effect, "eq") {
        route_eq(parameter)
    } else if str_eq(effect, "compressor") {
        if str_eq(parameter, "enabled") {
            Ok(EffectTarget::CompressorEnabled)
        } else if str_eq(parameter, "threshold") {
            Ok(EffectTarget::Compressor(CompressorParam::Threshold))
        } else if str_eq(parameter, "ratio") {
            Ok(EffectTarget::Compressor(CompressorParam::Ratio))
        } else if str_eq(parameter, "attack") {
            Ok(EffectTarget::Compressor(CompressorParam::Attack))
        } else if str_eq(parameter, "release") {
            Ok(EffectTarget::Compressor(CompressorParam::Release))
        } else if str_eq(parameter, "knee") {
            Ok(EffectTarget::Compressor(CompressorParam::Knee))
        } else if str_eq(parameter, "makeup") {
            Ok(EffectTarget::Compressor(CompressorParam::Makeup))
        } else {
            Err(String::from_str("Unknown compressor parameter"))
        }
    } else if str_eq(effect, "reverb") {
        if str_eq(parameter, "enabled") {
            Ok(EffectTarget::ReverbEnabled)
        } else if str_eq(parameter, "room_size") {
            Ok(EffectTarget::Reverb(ReverbParam::RoomSize))
        } else if str_eq(parameter, "decay") {
            Ok(EffectTarget::Reverb(ReverbParam::Decay))
        } else if str_eq(parameter, "pre_delay") {
            Ok(EffectTarget::Reverb(ReverbParam::PreDelay))
        } else if str_eq(parameter, "wet_dry") || str_eq(parameter, "mix") {
            Ok(EffectTarget::Reverb(ReverbParam::WetDry))
        } else {
            Err(String::from_str("Unknown reverb parameter"))
        }
    } else if str_eq(effect, "delay") {
        if str_eq(parameter, "enabled") {
            Ok(EffectTarget::DelayEnabled)
        } else if str_eq(parameter, "time") {
            Ok(EffectTarget::Delay(DelayParam::Time))
        } else if str_eq(parameter, "feedback") {
            Ok(EffectTarget::Delay(DelayParam::Feedback))
        } else if str_eq(parameter, "wet_dry") || str_eq(parameter, "mix") {
            Ok(EffectTarget::Delay(DelayParam::WetDry))
        } else {
            Err(String::from_str("Unknown delay parameter"))
        }
    } else {
        Err(String::from_str("Unknown effect: ").concat(effect))
    }
}

} // verus!
