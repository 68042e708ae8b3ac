//! Identity of a voice source within one session.

use vstd::prelude::*;
use vstd::string::StringExecFns;

verus! {

/// Identifier for a voice source: a stable participant identity (`User`) when
/// the resolver knows the source, otherwise the transient per-session source
/// identifier itself (`Unknown`).
///
/// Two keys are equal exactly when they have the same variant and the same
/// payload.
#[derive(Debug, Clone, Copy, PartialEq, Eq, Hash, Structural)]
pub enum VoiceKey {
    User(u64),
    Unknown(u32),
}

/// The decimal digit character for `n` (`n < 10`).
pub open spec fn dec_digit(n: nat) -> char {
    if n == 0 {
        '0'
    } else if n == 1 {
        '1'
    } else if n == 2 {
        '2'
    } else if n == 3 {
        '3'
    } else if n == 4 {
        '4'
    } else if n == 5 {
        '5'
    } else if n == 6 {
        '6'
    } else if n == 7 {
        '7'
    } else if n == 8 {
        '8'
    } else {
        '9'
    }
}

/// The decimal rendering of `n`, most significant digit first, no sign and no
/// leading zeros (`0` renders as `"0"`).
pub open spec fn dec_str(n: nat) -> Seq<char>
    decreases n,
{
    if n < 10 {
        seq![dec_digit(n)]
    } else {
        dec_str(n / 10) + seq![dec_digit(n % 10)]
    }
}

/// The one-character string for decimal digit `d`.
fn digit_str(d: u64) -> (r: &'static str)
    requires
        d < 10,
    ensures
        r@ == seq![dec_digit(d as nat)],
{
    proof {
        reveal_strlit("0");
        reveal_strlit("1");
        reveal_strlit("2");
        reveal_strlit("3");
        reveal_strlit("4");
        reveal_strlit("5");
        reveal_strlit("6");
        reveal_strlit("7");
        reveal_strlit("8");
        reveal_strlit("9");
    }
    if d == 0 {
        "0"
    } else if d == 1 {
        "1"
    } else if d == 2 {
        "2"
    } else if d == 3 {
        "3"
    } else if d == 4 {
        "4"
    } else if d == 5 {
        "5"
    } else if d == 6 {
        "6"
    } else if d == 7 {
        "7"
    } else if d == 8 {
        "8"
    } else {
        "9"
    }
}

/// Append the decimal rendering of `n` to `s`.
fn push_decimal(s: &mut String, n: u64)
    ensures
        final(s)@ == old(s)@ + dec_str(n as nat),
    decreases n,
{
    if n >= 10 {
        push_decimal(s, n / 10);
    }
    let d: u64 = n % 10;
    s.append(digit_str(d));
    proof {
        if n >= 10 {
            assert(final(s)@ =~= old(s)@ + dec_str(n as nat));
        }
    }
}

impl VoiceKey {
    /// The underlying integer identifier, widened to `u64`: the participant id
    /// for `User`, otherwise the source identifier.
    pub open spec fn id_spec(self) -> u64 {
        match self {
            VoiceKey::User(user_id) => user_id,
            VoiceKey::Unknown(ssrc) => ssrc as u64,
        }
    }

    /// Return the underlying integer identifier.
    pub fn id(&self) -> (r: u64)
        ensures
            r == self.id_spec(),
    {
        match self {
            VoiceKey::User(user_id) => *user_id,
            VoiceKey::Unknown(ssrc) => *ssrc as u64,
        }
    }

    /// Check whether this key names a resolved participant.
    pub fn is_user(&self) -> (r: bool)
        ensures
            r == (self is User),
    {
        matches!(self, VoiceKey::User(_))
    }

    /// Check whether this key is an unresolved source identifier.
    pub fn is_unknown(&self) -> (r: bool)
        ensures
            r == (self is Unknown),
    {
        matches!(self, VoiceKey::Unknown(_))
    }

    /// The display form of this key, e.g. `VoiceKey.User(1234)`.
    pub open spec fn repr_spec(self) -> Seq<char> {
        match self {
            VoiceKey::User(user_id) => "VoiceKey.User("@ + dec_str(user_id as nat) + ")"@,
            VoiceKey::Unknown(ssrc) => "VoiceKey.Unknown("@ + dec_str(ssrc as nat) + ")"@,
        }
    }

    /// Render this key for display.
    pub fn __repr__(&self) -> (r: String)
        ensures
            r@ == self.repr_spec(),
    {
        proof {
            reveal_strlit("VoiceKey.User(");
            reveal_strlit("VoiceKey.Unknown(");
            reveal_strlit(")");
        }
        match self {
            VoiceKey::User(user_id) => {
                let mut s = "VoiceKey.User(".to_owned();
                push_decimal(&mut s, *user_id);
                s.append(")");
                proof {
                    assert(s@ =~= self.repr_spec());
                }
                s
            },
            VoiceKey::Unknown(ssrc) => {
                let mut s = "VoiceKey.Unknown(".to_owned();
                push_decimal(&mut s, *ssrc as u64);
                s.append(")");
                proof {
                    assert(s@ =~= self.repr_spec());
                }
                s
            },
        }
    }
}

} // verus!
