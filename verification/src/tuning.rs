//! The built-in tunings the command line selects.
use vstd::prelude::*;
use vstd::string::StrSliceExecFns;

verus! {

/// A built-in tuning.
#[derive(Clone, Copy, Debug, PartialEq, Eq, Structural)]
pub enum BuiltinTuning {
    /// Equal division of the octave into this many steps, with the
    /// reference note at the reference pitch.
    Edo(u32),
    /// Five-limit (and 7-, 11-, 13-, 17-limit) just intonation on C, with A
    /// (ratio 5/3) at the reference pitch.
    JustIntonation,
}

/// The tuning a command selects by its first character: `1` 12-EDO, `2`
/// 24-EDO, `3` just intonation, `4` to `9` 17, 19, 22, 31, 41 and 53-EDO;
/// anything else none.
pub open spec fn builtin_tuning_spec(choice: Seq<char>) -> Option<BuiltinTuning> {
    let c = if choice.len() > 0 {
        choice[0]
    } else {
        ' '
    };
    if c == '1' {
        Some(BuiltinTuning::Edo(12))
    } else if c == '2' {
        Some(BuiltinTuning::Edo(24))
    } else if c == '3' {
        Some(BuiltinTuning::JustIntonation)
    } else if c == '4' {
        Some(BuiltinTuning::Edo(17))
    } else if c == '5' {
        Some(BuiltinTuning::Edo(19))
    } else if c == '6' {
        Some(BuiltinTuning::Edo(22))
    } else if c == '7' {
        Some(BuiltinTuning::Edo(31))
    } else if c == '8' {
        Some(BuiltinTuning::Edo(41))
    } else if c == '9' {
        Some(BuiltinTuning::Edo(53))
    } else {
        None
    }
}

/// The built-in tuning a command selects.
pub fn builtin_tuning(choice: &str) -> (t: Option<BuiltinTuning>)
    ensures
        t == builtin_tuning_spec(choice@),
{
    let c = if choice.unicode_len() > 0 {
        choice.get_char(0)
    } else {
        ' '
    };
    match c {
        '1' => Some(BuiltinTuning::Edo(12)),
        '2' => Some(BuiltinTuning::Edo(24)),
        '3' => Some(BuiltinTuning::JustIntonation),
        '4' => Some(BuiltinTuning::Edo(17)),
        '5' => Some(BuiltinTuning::Edo(19)),
        '6' => Some(BuiltinTuning::Edo(22)),
        '7' => Some(BuiltinTuning::Edo(31)),
        '8' => Some(BuiltinTuning::Edo(41)),
        '9' => Some(BuiltinTuning::Edo(53)),
        _ => None,
    }
}

/// The command table: `1` selects 12-EDO, `2` 24-EDO, `3` just intonation,
/// `4` to `9` select 17, 19, 22, 31, 41 and 53 equal divisions of the
/// octave; a command starting with anything else, or an empty one, selects
/// nothing. Only the first character counts.
pub proof fn law_builtin_table(choice: Seq<char>)
    ensures
        choice.len() == 0 ==> builtin_tuning_spec(choice) is None,
        choice.len() > 0 ==> {
            let c = choice[0];
            &&& c == '1' ==> builtin_tuning_spec(choice) == Some(BuiltinTuning::Edo(12))
            &&& c == '2' ==> builtin_tuning_spec(choice) == Some(BuiltinTuning::Edo(24))
            &&& c == '3' ==> builtin_tuning_spec(choice) == Some(BuiltinTuning::JustIntonation)
            &&& c == '4' ==> builtin_tuning_spec(choice) == Some(BuiltinTuning::Edo(17))
            &&& c == '5' ==> builtin_tuning_spec(choice) == Some(BuiltinTuning::Edo(19))
            &&& c == '6' ==> builtin_tuning_spec(choice) == Some(BuiltinTuning::Edo(22))
            &&& c == '7' ==> builtin_tuning_spec(choice) == Some(BuiltinTuning::Edo(31))
            &&& c == '8' ==> builtin_tuning_spec(choice) == Some(BuiltinTuning::Edo(41))
            &&& c == '9' ==> builtin_tuning_spec(choice) == Some(BuiltinTuning::Edo(53))
            &&& !('1' <= c && c <= '9') ==> builtin_tuning_spec(choice) is None
            &&& builtin_tuning_spec(choice) == builtin_tuning_spec(seq![c])
        },
{
    if choice.len() > 0 {
        assert(seq![choice[0]][0] == choice[0]);
    }
}

} // verus!
