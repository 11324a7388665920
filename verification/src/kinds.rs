//! The closed vocabularies of the tool's output: boot policy, unit type
//! and load state.

use vstd::prelude::*;
use crate::error::CtlError;
use crate::text::chars_of;
use crate::text::is_str;

verus! {

/// The boot-time policy of a unit.
#[derive(Clone, Copy, Debug, PartialEq, Eq, Structural)]
pub enum AutoStartStatus {
    /// Started only as a dependency of another unit.
    Static,
    /// Started at boot.
    Enabled,
    /// Started at boot until the next reboot.
    EnabledRuntime,
    /// Not started at boot.
    Disabled,
    /// Made by a generator at boot.
    Generated,
    /// Enabled through another unit.
    Indirect,
    /// Made at run time; gone after a reboot.
    Transient,
}

impl AutoStartStatus {
    /// The token that stands for the variant in the tool's output.
    pub open spec fn token(self) -> Seq<char> {
        match self {
            AutoStartStatus::Static => "static"@,
            AutoStartStatus::Enabled => "enabled"@,
            AutoStartStatus::EnabledRuntime => "enabled-runtime"@,
            AutoStartStatus::Disabled => "disabled"@,
            AutoStartStatus::Generated => "generated"@,
            AutoStartStatus::Indirect => "indirect"@,
            AutoStartStatus::Transient => "transient"@,
        }
    }

    /// The variant that `s` is the token of, if any. The match is exact:
    /// case matters and nothing is trimmed.
    pub open spec fn parse(s: Seq<char>) -> Option<AutoStartStatus> {
        if s == "static"@ {
            Some(AutoStartStatus::Static)
        } else if s == "enabled"@ {
            Some(AutoStartStatus::Enabled)
        } else if s == "enabled-runtime"@ {
            Some(AutoStartStatus::EnabledRuntime)
        } else if s == "disabled"@ {
            Some(AutoStartStatus::Disabled)
        } else if s == "generated"@ {
            Some(AutoStartStatus::Generated)
        } else if s == "indirect"@ {
            Some(AutoStartStatus::Indirect)
        } else if s == "transient"@ {
            Some(AutoStartStatus::Transient)
        } else {
            None
        }
    }

    /// The token of the variant.
    pub fn as_str(self) -> (r: &'static str)
        ensures
            r@ == self.token(),
    {
        match self {
            AutoStartStatus::Static => "static",
            AutoStartStatus::Enabled => "enabled",
            AutoStartStatus::EnabledRuntime => "enabled-runtime",
            AutoStartStatus::Disabled => "disabled",
            AutoStartStatus::Generated => "generated",
            AutoStartStatus::Indirect => "indirect",
            AutoStartStatus::Transient => "transient",
        }
    }

    /// Decodes a token that is already held as characters.
    pub fn from_chars(s: &Vec<char>) -> (r: Option<AutoStartStatus>)
        ensures
            r == AutoStartStatus::parse(s@),
    {
        if is_str(s, "static") {
            Some(AutoStartStatus::Static)
        } else if is_str(s, "enabled") {
            Some(AutoStartStatus::Enabled)
        } else if is_str(s, "enabled-runtime") {
            Some(AutoStartStatus::EnabledRuntime)
        } else if is_str(s, "disabled") {
            Some(AutoStartStatus::Disabled)
        } else if is_str(s, "generated") {
            Some(AutoStartStatus::Generated)
        } else if is_str(s, "indirect") {
            Some(AutoStartStatus::Indirect)
        } else if is_str(s, "transient") {
            Some(AutoStartStatus::Transient)
        } else {
            None
        }
    }

    /// Decodes a token. An unknown token is a failure.
    pub fn from_str(s: &str) -> (r: Result<AutoStartStatus, CtlError>)
        ensures
            r == match AutoStartStatus::parse(s@) {
                Some(v) => Ok::<AutoStartStatus, CtlError>(v),
                None => Err::<AutoStartStatus, CtlError>(CtlError::DecodeFailure),
            },
    {
        let v = chars_of(s);
        match AutoStartStatus::from_chars(&v) {
            Some(x) => Ok(x),
            None => Err(CtlError::DecodeFailure),
        }
    }

    /// Decodes an auto-start token. A token that is not known stands for
    /// `Disabled`: the service manager may use tokens that are newer than
    /// this decoder, and that alone must not fail a whole record.
    pub fn decode(s: &Vec<char>) -> (r: AutoStartStatus)
        ensures
            r == AutoStartStatus::decode_spec(s@),
            AutoStartStatus::parse(s@) is None ==> r == AutoStartStatus::Disabled,
    {
        match AutoStartStatus::from_chars(s) {
            Some(x) => x,
            None => AutoStartStatus::Disabled,
        }
    }

    /// The variant that an auto-start token stands for, `Disabled` when it
    /// is unknown.
    pub open spec fn decode_spec(s: Seq<char>) -> AutoStartStatus {
        match AutoStartStatus::parse(s) {
            Some(v) => v,
            None => AutoStartStatus::Disabled,
        }
    }

    /// Encoding a variant and decoding the token gives the variant back.
    pub proof fn lemma_round_trip(self)
        ensures
            AutoStartStatus::parse(self.token()) == Some(self),
    {
        reveal_strlit("static");
        assert("static"@.len() == 6 && "static"@[0] == 's' && "static"@[1] == 't');
        reveal_strlit("enabled");
        assert("enabled"@.len() == 7 && "enabled"@[0] == 'e' && "enabled"@[1] == 'n');
        reveal_strlit("enabled-runtime");
        assert("enabled-runtime"@.len() == 15 && "enabled-runtime"@[0] == 'e' && "enabled-runtime"@[1] == 'n');
        reveal_strlit("disabled");
        assert("disabled"@.len() == 8 && "disabled"@[0] == 'd' && "disabled"@[1] == 'i');
        reveal_strlit("generated");
        assert("generated"@.len() == 9 && "generated"@[0] == 'g' && "generated"@[1] == 'e');
        reveal_strlit("indirect");
        assert("indirect"@.len() == 8 && "indirect"@[0] == 'i' && "indirect"@[1] == 'n');
        reveal_strlit("transient");
        assert("transient"@.len() == 9 && "transient"@[0] == 't' && "transient"@[1] == 'r');
    }

    /// A token decodes to a variant exactly when it is that variant's token.
    pub proof fn lemma_parse_is_inverse(s: Seq<char>, v: AutoStartStatus)
        ensures
            AutoStartStatus::parse(s) == Some(v) <==> s == v.token(),
    {
        reveal_strlit("static");
        assert("static"@.len() == 6 && "static"@[0] == 's' && "static"@[1] == 't');
        reveal_strlit("enabled");
        assert("enabled"@.len() == 7 && "enabled"@[0] == 'e' && "enabled"@[1] == 'n');
        reveal_strlit("enabled-runtime");
        assert("enabled-runtime"@.len() == 15 && "enabled-runtime"@[0] == 'e' && "enabled-runtime"@[1] == 'n');
        reveal_strlit("disabled");
        assert("disabled"@.len() == 8 && "disabled"@[0] == 'd' && "disabled"@[1] == 'i');
        reveal_strlit("generated");
        assert("generated"@.len() == 9 && "generated"@[0] == 'g' && "generated"@[1] == 'e');
        reveal_strlit("indirect");
        assert("indirect"@.len() == 8 && "indirect"@[0] == 'i' && "indirect"@[1] == 'n');
        reveal_strlit("transient");
        assert("transient"@.len() == 9 && "transient"@[0] == 't' && "transient"@[1] == 'r');
    }
}

impl Default for AutoStartStatus {
    fn default() -> (r: AutoStartStatus)
        ensures
            r == AutoStartStatus::Disabled,
    {
        AutoStartStatus::Disabled
    }
}
/// The type of a unit, which the suffix of its name gives.
#[derive(Clone, Copy, Debug, PartialEq, Eq, Structural)]
pub enum Type {
    /// A mount point that is mounted on first access.
    AutoMount,
    /// A mount point.
    Mount,
    /// A supervised process.
    Service,
    /// A group of processes started elsewhere.
    Scope,
    /// A socket that starts a service on traffic.
    Socket,
    /// A node of the resource-control tree.
    Slice,
    /// A timer that starts another unit.
    Timer,
    /// A watched path that starts another unit.
    Path,
    /// A synchronisation point that groups units.
    Target,
}

impl Type {
    /// The token that stands for the variant in the tool's output.
    pub open spec fn token(self) -> Seq<char> {
        match self {
            Type::AutoMount => "automount"@,
            Type::Mount => "mount"@,
            Type::Service => "service"@,
            Type::Scope => "scope"@,
            Type::Socket => "socket"@,
            Type::Slice => "slice"@,
            Type::Timer => "timer"@,
            Type::Path => "path"@,
            Type::Target => "target"@,
        }
    }

    /// The variant that `s` is the token of, if any. The match is exact:
    /// case matters and nothing is trimmed.
    pub open spec fn parse(s: Seq<char>) -> Option<Type> {
        if s == "automount"@ {
            Some(Type::AutoMount)
        } else if s == "mount"@ {
            Some(Type::Mount)
        } else if s == "service"@ {
            Some(Type::Service)
        } else if s == "scope"@ {
            Some(Type::Scope)
        } else if s == "socket"@ {
            Some(Type::Socket)
        } else if s == "slice"@ {
            Some(Type::Slice)
        } else if s == "timer"@ {
            Some(Type::Timer)
        } else if s == "path"@ {
            Some(Type::Path)
        } else if s == "target"@ {
            Some(Type::Target)
        } else {
            None
        }
    }

    /// The token of the variant.
    pub fn as_str(self) -> (r: &'static str)
        ensures
            r@ == self.token(),
    {
        match self {
            Type::AutoMount => "automount",
            Type::Mount => "mount",
            Type::Service => "service",
            Type::Scope => "scope",
            Type::Socket => "socket",
            Type::Slice => "slice",
            Type::Timer => "timer",
            Type::Path => "path",
            Type::Target => "target",
        }
    }

    /// Decodes a token that is already held as characters.
    pub fn from_chars(s: &Vec<char>) -> (r: Option<Type>)
        ensures
            r == Type::parse(s@),
    {
        if is_str(s, "automount") {
            Some(Type::AutoMount)
        } else if is_str(s, "mount") {
            Some(Type::Mount)
        } else if is_str(s, "service") {
            Some(Type::Service)
        } else if is_str(s, "scope") {
            Some(Type::Scope)
        } else if is_str(s, "socket") {
            Some(Type::Socket)
        } else if is_str(s, "slice") {
            Some(Type::Slice)
        } else if is_str(s, "timer") {
            Some(Type::Timer)
        } else if is_str(s, "path") {
            Some(Type::Path)
        } else if is_str(s, "target") {
            Some(Type::Target)
        } else {
            None
        }
    }

    /// Decodes a token. An unknown token is a failure.
    pub fn from_str(s: &str) -> (r: Result<Type, CtlError>)
        ensures
            r == match Type::parse(s@) {
                Some(v) => Ok::<Type, CtlError>(v),
                None => Err::<Type, CtlError>(CtlError::DecodeFailure),
            },
    {
        let v = chars_of(s);
        match Type::from_chars(&v) {
            Some(x) => Ok(x),
            None => Err(CtlError::DecodeFailure),
        }
    }

    /// Encoding a variant and decoding the token gives the variant back.
    pub proof fn lemma_round_trip(self)
        ensures
            Type::parse(self.token()) == Some(self),
    {
        reveal_strlit("automount");
        assert("automount"@.len() == 9 && "automount"@[0] == 'a' && "automount"@[1] == 'u');
        reveal_strlit("mount");
        assert("mount"@.len() == 5 && "mount"@[0] == 'm' && "mount"@[1] == 'o');
        reveal_strlit("service");
        assert("service"@.len() == 7 && "service"@[0] == 's' && "service"@[1] == 'e');
        reveal_strlit("scope");
        assert("scope"@.len() == 5 && "scope"@[0] == 's' && "scope"@[1] == 'c');
        reveal_strlit("socket");
        assert("socket"@.len() == 6 && "socket"@[0] == 's' && "socket"@[1] == 'o');
        reveal_strlit("slice");
        assert("slice"@.len() == 5 && "slice"@[0] == 's' && "slice"@[1] == 'l');
        reveal_strlit("timer");
        assert("timer"@.len() == 5 && "timer"@[0] == 't' && "timer"@[1] == 'i');
        reveal_strlit("path");
        assert("path"@.len() == 4 && "path"@[0] == 'p' && "path"@[1] == 'a');
        reveal_strlit("target");
        assert("target"@.len() == 6 && "target"@[0] == 't' && "target"@[1] == 'a');
    }

    /// A token decodes to a variant exactly when it is that variant's token.
    pub proof fn lemma_parse_is_inverse(s: Seq<char>, v: Type)
        ensures
            Type::parse(s) == Some(v) <==> s == v.token(),
    {
        reveal_strlit("automount");
        assert("automount"@.len() == 9 && "automount"@[0] == 'a' && "automount"@[1] == 'u');
        reveal_strlit("mount");
        assert("mount"@.len() == 5 && "mount"@[0] == 'm' && "mount"@[1] == 'o');
        reveal_strlit("service");
        assert("service"@.len() == 7 && "service"@[0] == 's' && "service"@[1] == 'e');
        reveal_strlit("scope");
        assert("scope"@.len() == 5 && "scope"@[0] == 's' && "scope"@[1] == 'c');
        reveal_strlit("socket");
        assert("socket"@.len() == 6 && "socket"@[0] == 's' && "socket"@[1] == 'o');
        reveal_strlit("slice");
        assert("slice"@.len() == 5 && "slice"@[0] == 's' && "slice"@[1] == 'l');
        reveal_strlit("timer");
        assert("timer"@.len() == 5 && "timer"@[0] == 't' && "timer"@[1] == 'i');
        reveal_strlit("path");
        assert("path"@.len() == 4 && "path"@[0] == 'p' && "path"@[1] == 'a');
        reveal_strlit("target");
        assert("target"@.len() == 6 && "target"@[0] == 't' && "target"@[1] == 'a');
    }
}

impl Default for Type {
    fn default() -> (r: Type)
        ensures
            r == Type::Service,
    {
        Type::Service
    }
}
/// Whether the configuration of a unit is loaded.
#[derive(Clone, Copy, Debug, PartialEq, Eq, Structural)]
pub enum State {
    /// The unit is masked and cannot be started.
    Masked,
    /// The unit's configuration is loaded.
    Loaded,
}

impl State {
    /// The token that stands for the variant in the tool's output.
    pub open spec fn token(self) -> Seq<char> {
        match self {
            State::Masked => "masked"@,
            State::Loaded => "loaded"@,
        }
    }

    /// The variant that `s` is the token of, if any. The match is exact:
    /// case matters and nothing is trimmed.
    pub open spec fn parse(s: Seq<char>) -> Option<State> {
        if s == "masked"@ {
            Some(State::Masked)
        } else if s == "loaded"@ {
            Some(State::Loaded)
        } else {
            None
        }
    }

    /// The token of the variant.
    pub fn as_str(self) -> (r: &'static str)
        ensures
            r@ == self.token(),
    {
        match self {
            State::Masked => "masked",
            State::Loaded => "loaded",
        }
    }

    /// Decodes a token that is already held as characters.
    pub fn from_chars(s: &Vec<char>) -> (r: Option<State>)
        ensures
            r == State::parse(s@),
    {
        if is_str(s, "masked") {
            Some(State::Masked)
        } else if is_str(s, "loaded") {
            Some(State::Loaded)
        } else {
            None
        }
    }

    /// Decodes a token. An unknown token is a failure.
    pub fn from_str(s: &str) -> (r: Result<State, CtlError>)
        ensures
            r == match State::parse(s@) {
                Some(v) => Ok::<State, CtlError>(v),
                None => Err::<State, CtlError>(CtlError::DecodeFailure),
            },
    {
        let v = chars_of(s);
        match State::from_chars(&v) {
            Some(x) => Ok(x),
            None => Err(CtlError::DecodeFailure),
        }
    }

    /// Encoding a variant and decoding the token gives the variant back.
    pub proof fn lemma_round_trip(self)
        ensures
            State::parse(self.token()) == Some(self),
    {
        reveal_strlit("masked");
        assert("masked"@.len() == 6 && "masked"@[0] == 'm' && "masked"@[1] == 'a');
        reveal_strlit("loaded");
        assert("loaded"@.len() == 6 && "loaded"@[0] == 'l' && "loaded"@[1] == 'o');
    }

    /// A token decodes to a variant exactly when it is that variant's token.
    pub proof fn lemma_parse_is_inverse(s: Seq<char>, v: State)
        ensures
            State::parse(s) == Some(v) <==> s == v.token(),
    {
        reveal_strlit("masked");
        assert("masked"@.len() == 6 && "masked"@[0] == 'm' && "masked"@[1] == 'a');
        reveal_strlit("loaded");
        assert("loaded"@.len() == 6 && "loaded"@[0] == 'l' && "loaded"@[1] == 'o');
    }
}

impl Default for State {
    fn default() -> (r: State)
        ensures
            r == State::Masked,
    {
        State::Masked
    }
}
} // verus!
