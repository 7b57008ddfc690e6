use crate::message::{zeros, ToParams, PARAMS_SIZE};
use vstd::prelude::*;

verus! {

/// What the suction cup does.
#[derive(Clone, Copy, Debug, PartialEq, Eq, Structural)]
pub enum EndEffectorSuctionCapState {
    Off,
    In,
    Out,
}

/// Parameters of the suction-cup command: whether the cup is driven, and
/// whether it sucks.
#[derive(Clone, Copy, Debug, PartialEq, Eq, Structural)]
pub struct EndEffectorSuctionCapParams {
    pub enable_ctrl: bool,
    pub suck: bool,
}

impl From<EndEffectorSuctionCapState> for EndEffectorSuctionCapParams {
    fn from(state: EndEffectorSuctionCapState) -> (r: Self) {
        match state {
            EndEffectorSuctionCapState::Off => EndEffectorSuctionCapParams {
                enable_ctrl: false,
                suck: false,
            },
            EndEffectorSuctionCapState::In => EndEffectorSuctionCapParams {
                enable_ctrl: true,
                suck: true,
            },
            EndEffectorSuctionCapState::Out => EndEffectorSuctionCapParams {
                enable_ctrl: true,
                suck: false,
            },
        }
    }
}

impl vstd::std_specs::convert::FromSpecImpl<EndEffectorSuctionCapState> for EndEffectorSuctionCapParams {
    open spec fn obeys_from_spec() -> bool {
        true
    }

    open spec fn from_spec(state: EndEffectorSuctionCapState) -> Self {
        match state {
            EndEffectorSuctionCapState::Off => EndEffectorSuctionCapParams {
                enable_ctrl: false,
                suck: false,
            },
            EndEffectorSuctionCapState::In => EndEffectorSuctionCapParams {
                enable_ctrl: true,
                suck: true,
            },
            EndEffectorSuctionCapState::Out => EndEffectorSuctionCapParams {
                enable_ctrl: true,
                suck: false,
            },
        }
    }
}

pub open spec fn bool_byte(b: bool) -> u8 {
    if b {
        1
    } else {
        0
    }
}

impl ToParams for EndEffectorSuctionCapParams {
    /// One byte per flag, `enable_ctrl` first.
    open spec fn params_spec(&self) -> Seq<u8> {
        seq![bool_byte(self.enable_ctrl), bool_byte(self.suck)]
    }

    /// The two flag bytes, then zeros.
    open spec fn params_block(&self) -> Seq<u8> {
        self.params_spec() + zeros((PARAMS_SIZE - 2) as nat)
    }

    fn to_params(&self) -> (r: (usize, [u8; PARAMS_SIZE])) {
        let mut b = [0u8; PARAMS_SIZE];
        b[0] = if self.enable_ctrl { 1 } else { 0 };
        b[1] = if self.suck { 1 } else { 0 };
        assert(b@.take(2) =~= self.params_spec());
        assert(b@ =~= self.params_block());
        (2, b)
    }
}

/// When the hand-held teaching trigger fires.
#[derive(Clone, Copy, Debug, PartialEq, Eq, Structural)]
pub enum HHTTrigMode {
    TriggeredOnKeyReleased,
    TriggeredOnPeriodicInterval,
}

pub open spec fn hht_trig_mode_byte(mode: HHTTrigMode) -> u8 {
    match mode {
        HHTTrigMode::TriggeredOnKeyReleased => 0,
        HHTTrigMode::TriggeredOnPeriodicInterval => 1,
    }
}

impl ToParams for HHTTrigMode {
    /// A single byte: 0 on key release, 1 periodically.
    open spec fn params_spec(&self) -> Seq<u8> {
        seq![hht_trig_mode_byte(*self)]
    }

    /// The mode byte repeated over the whole block.
    open spec fn params_block(&self) -> Seq<u8> {
        Seq::new(PARAMS_SIZE as nat, |i: int| hht_trig_mode_byte(*self))
    }

    fn to_params(&self) -> (r: (usize, [u8; PARAMS_SIZE])) {
        let v: u8 = match self {
            HHTTrigMode::TriggeredOnKeyReleased => 0,
            HHTTrigMode::TriggeredOnPeriodicInterval => 1,
        };
        let b = [v; PARAMS_SIZE];
        assert(b@.take(1) =~= self.params_spec());
        assert(b@ =~= self.params_block());
        (1, b)
    }
}

} // verus!
