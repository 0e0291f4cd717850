//! The control modes each vendor's motors offer, and the numbers by which the C
//! interface selects them.
use vstd::prelude::*;

verus! {

/// Damiao control modes.
#[derive(Clone, Copy, Debug, PartialEq, Eq, Structural)]
pub enum DamiaoMode {
    Mit,
    PosVel,
    Vel,
    ForcePos,
}

/// RobStride control modes.
#[derive(Clone, Copy, Debug, PartialEq, Eq, Structural)]
pub enum RobstrideMode {
    Mit,
    Position,
    Velocity,
}

/// MyActuator control modes.
#[derive(Clone, Copy, Debug, PartialEq, Eq, Structural)]
pub enum MyActuatorMode {
    Current,
    Position,
    Velocity,
}

/// The Damiao mode numbered `n`: 1 MIT, 2 POS_VEL, 3 VEL, 4 FORCE_POS.
pub open spec fn damiao_mode_numbered(n: int) -> Option<DamiaoMode> {
    if n == 1 {
        Some(DamiaoMode::Mit)
    } else if n == 2 {
        Some(DamiaoMode::PosVel)
    } else if n == 3 {
        Some(DamiaoMode::Vel)
    } else if n == 4 {
        Some(DamiaoMode::ForcePos)
    } else {
        None
    }
}

/// The RobStride mode numbered `n` in the C interface: 1 MIT, 2 POSITION, 3 VELOCITY.
pub open spec fn robstride_mode_numbered(n: int) -> Option<RobstrideMode> {
    if n == 1 {
        Some(RobstrideMode::Mit)
    } else if n == 2 {
        Some(RobstrideMode::Position)
    } else if n == 3 {
        Some(RobstrideMode::Velocity)
    } else {
        None
    }
}

/// The MyActuator mode numbered `n`: 1 CURRENT, 2 POSITION, 3 VELOCITY.
pub open spec fn myactuator_mode_numbered(n: int) -> Option<MyActuatorMode> {
    if n == 1 {
        Some(MyActuatorMode::Current)
    } else if n == 2 {
        Some(MyActuatorMode::Position)
    } else if n == 3 {
        Some(MyActuatorMode::Velocity)
    } else {
        None
    }
}

/// The C interface numbers each vendor's modes from 1 in the order its refusal text
/// lists them: Damiao `1(MIT) / 2(POS_VEL) / 3(VEL) / 4(FORCE_POS)`, RobStride
/// `1(MIT) / 2(POSITION) / 3(VELOCITY)`, MyActuator `1(CURRENT) / 2(POSITION) /
/// 3(VELOCITY)`; no other number names a mode.
pub proof fn modes_numbered_in_listed_order(n: int)
    ensures
        damiao_mode_numbered(n) == (if 1 <= n <= 4 {
            Some(seq![DamiaoMode::Mit, DamiaoMode::PosVel, DamiaoMode::Vel, DamiaoMode::ForcePos][n - 1])
        } else {
            None
        }),
        robstride_mode_numbered(n) == (if 1 <= n <= 3 {
            Some(seq![RobstrideMode::Mit, RobstrideMode::Position, RobstrideMode::Velocity][n - 1])
        } else {
            None
        }),
        myactuator_mode_numbered(n) == (if 1 <= n <= 3 {
            Some(seq![MyActuatorMode::Current, MyActuatorMode::Position, MyActuatorMode::Velocity][n - 1])
        } else {
            None
        }),
{
}

pub fn to_damiao_mode(mode: u32) -> (r: Result<DamiaoMode, &'static str>)
    ensures
        match damiao_mode_numbered(mode as int) {
            Some(m) => r == Ok::<DamiaoMode, &'static str>(m),
            None => r matches Err(e) && e@
                == "Damiao mode must be 1(MIT) / 2(POS_VEL) / 3(VEL) / 4(FORCE_POS)"@,
        },
{
    match mode {
        1 => Ok(DamiaoMode::Mit),
        2 => Ok(DamiaoMode::PosVel),
        3 => Ok(DamiaoMode::Vel),
        4 => Ok(DamiaoMode::ForcePos),
        _ => Err("Damiao mode must be 1(MIT) / 2(POS_VEL) / 3(VEL) / 4(FORCE_POS)"),
    }
}

pub fn to_robstride_mode(mode: u32) -> (r: Result<RobstrideMode, &'static str>)
    ensures
        match robstride_mode_numbered(mode as int) {
            Some(m) => r == Ok::<RobstrideMode, &'static str>(m),
            None => r matches Err(e) && e@
                == "RobStride mode must be 1(MIT) / 2(POSITION) / 3(VELOCITY)"@,
        },
{
    match mode {
        1 => Ok(RobstrideMode::Mit),
        2 => Ok(RobstrideMode::Position),
        3 => Ok(RobstrideMode::Velocity),
        _ => Err("RobStride mode must be 1(MIT) / 2(POSITION) / 3(VELOCITY)"),
    }
}

pub fn to_myactuator_mode(mode: u32) -> (r: Result<MyActuatorMode, &'static str>)
    ensures
        match myactuator_mode_numbered(mode as int) {
            Some(m) => r == Ok::<MyActuatorMode, &'static str>(m),
            None => r matches Err(e) && e@
                == "MyActuator mode must be 1(CURRENT) / 2(POSITION) / 3(VELOCITY)"@,
        },
{
    match mode {
        1 => Ok(MyActuatorMode::Current),
        2 => Ok(MyActuatorMode::Position),
        3 => Ok(MyActuatorMode::Velocity),
        _ => Err("MyActuator mode must be 1(CURRENT) / 2(POSITION) / 3(VELOCITY)"),
    }
}

} // verus!
