//! The logic level of a digital signal.
use vstd::prelude::*;

verus! {

/// Whether a digital signal is low or high.
///
/// On the wire a level is a little-endian `u32`. Reading is lenient and
/// writing strict: `0` reads as [`State::Low`] and every other value as
/// [`State::High`], while only `0` and `1` are ever written.
#[derive(Debug, Clone, Copy, PartialEq, Eq, Structural)]
pub enum State {
    Low,
    High,
}

impl State {
    /// `true` for [`State::High`].
    pub open spec fn spec_as_bool(self) -> bool {
        self is High
    }

    /// The value that is written for this level.
    pub open spec fn spec_to_wire(self) -> u32 {
        if self is High {
            1
        } else {
            0
        }
    }

    /// The level that a wire value is read as.
    pub open spec fn spec_from_wire(w: u32) -> State {
        if w == 0 {
            State::Low
        } else {
            State::High
        }
    }

    /// `true` for [`State::High`], `false` for [`State::Low`].
    #[verifier::when_used_as_spec(spec_as_bool)]
    pub fn as_bool(self) -> (b: bool)
        ensures
            b == self.spec_as_bool(),
    {
        match self {
            State::Low => false,
            State::High => true,
        }
    }

    /// The wire value of this level: `0` for low, `1` for high, never
    /// anything else.
    #[verifier::when_used_as_spec(spec_to_wire)]
    pub fn to_wire(self) -> (w: u32)
        ensures
            w == self.spec_to_wire(),
            w == 0 || w == 1,
            w == 1 <==> self is High,
    {
        match self {
            State::Low => 0,
            State::High => 1,
        }
    }

    /// The level that the wire value `w` stands for. No value is rejected:
    /// whatever is not `0` is high.
    #[verifier::when_used_as_spec(spec_from_wire)]
    pub fn from_wire(w: u32) -> (s: State)
        ensures
            s == State::spec_from_wire(w),
            w == 0 ==> s == State::Low,
            w != 0 ==> s == State::High,
    {
        if w == 0 {
            State::Low
        } else {
            State::High
        }
    }

    /// Writing a level and reading it back gives the same level.
    pub proof fn lemma_wire_round_trip(self)
        ensures
            State::spec_from_wire(self.spec_to_wire()) == self,
    {
    }
}

impl From<State> for bool {
    fn from(value: State) -> (b: bool) {
        value.as_bool()
    }
}

impl vstd::std_specs::convert::FromSpecImpl<State> for bool {
    open spec fn obeys_from_spec() -> bool {
        true
    }

    open spec fn from_spec(value: State) -> bool {
        value.spec_as_bool()
    }
}

} // verus!
