//! Carrier and aircraft catalogue: which DCS types are supported and how they recover.
use vstd::prelude::*;
use crate::text::str_equals;

verus! {

/// How a carrier recovers aircraft.
#[derive(Debug, Clone, Copy, PartialEq, Eq)]
pub enum CarrierRecovery {
    /// Arresting wires (CATOBAR).
    Arrested,
    /// Vertical landing on a deck spot (V/STOL).
    Vstol,
}

/// The supported carrier classes.
#[derive(Debug, Clone, Copy, PartialEq, Eq)]
pub enum CarrierClass {
    Nimitz,
    Forrestal,
    Tarawa,
}

/// Catalogue entry of a supported carrier.
#[derive(Debug, Clone, Copy, PartialEq, Eq)]
pub struct CarrierInfo {
    pub class: CarrierClass,
    pub recovery: CarrierRecovery,
}

/// The supported aircraft models.
#[derive(Debug, Clone, Copy, PartialEq, Eq)]
pub enum AirplaneModel {
    FA18C,
    F14A,
    F14B,
    F14BU,
    T45,
    AV8B,
}

/// Catalogue entry of a supported aircraft.
#[derive(Debug, Clone, Copy, PartialEq, Eq)]
pub struct AirplaneInfo {
    pub model: AirplaneModel,
    /// External-model draw argument of the arresting hook, when validated.
    pub hook_argument_id: Option<u32>,
}

/// AoA rating of an aircraft relative to its on-speed band.
#[derive(Debug, Clone, Copy, PartialEq, Eq)]
pub enum Aoa {
    Fast,
    SlightlyFast,
    OnSpeed,
    SlightlySlow,
    Slow,
}

/// The carrier catalogue entry of a DCS type name.
pub open spec fn spec_carrier_by_type(t: Seq<char>) -> Option<CarrierInfo> {
    if t == "CVN_71"@ || t == "CVN_72"@ || t == "CVN_73"@ || t == "CVN_75"@ || t == "Stennis"@ {
        Some(CarrierInfo { class: CarrierClass::Nimitz, recovery: CarrierRecovery::Arrested })
    } else if t == "Forrestal"@ {
        Some(CarrierInfo { class: CarrierClass::Forrestal, recovery: CarrierRecovery::Arrested })
    } else if t == "LHA_Tarawa"@ {
        Some(CarrierInfo { class: CarrierClass::Tarawa, recovery: CarrierRecovery::Vstol })
    } else {
        None
    }
}

/// The aircraft catalogue entry of a DCS type name.
pub open spec fn spec_airplane_by_type(t: Seq<char>) -> Option<AirplaneInfo> {
    if t == "FA-18C_hornet"@ {
        Some(AirplaneInfo { model: AirplaneModel::FA18C, hook_argument_id: Some(25) })
    } else if t == "F-14A-135-GR"@ || t == "F-14A-135-GR-Early"@ || t == "F-14A-95-GR"@ {
        Some(AirplaneInfo { model: AirplaneModel::F14A, hook_argument_id: Some(1305) })
    } else if t == "F-14B"@ || t == "F-14A/B"@ {
        Some(AirplaneInfo { model: AirplaneModel::F14B, hook_argument_id: Some(1305) })
    } else if t == "F-14B(U)"@ || t == "F-14BU"@ {
        Some(AirplaneInfo { model: AirplaneModel::F14BU, hook_argument_id: Some(1305) })
    } else if t == "T-45"@ {
        Some(AirplaneInfo { model: AirplaneModel::T45, hook_argument_id: Some(25) })
    } else if t == "AV8BNA"@ {
        Some(AirplaneInfo { model: AirplaneModel::AV8B, hook_argument_id: None })
    } else {
        None
    }
}

/// Whether a carrier may recover an aircraft type (the strict compatibility matrix): the
/// V/STOL carrier only the AV-8B, arrested carriers every other catalogued aircraft.
pub open spec fn spec_supports(carrier: CarrierInfo, aircraft_type: Seq<char>) -> bool {
    match carrier.recovery {
        CarrierRecovery::Vstol => aircraft_type == "AV8BNA"@,
        CarrierRecovery::Arrested => spec_airplane_by_type(aircraft_type) is Some && aircraft_type
            != "AV8BNA"@,
    }
}

/// The numeric aircraft id stored with a pass.
pub open spec fn spec_aircraft_id(t: Seq<char>) -> Option<i64> {
    if t == "FA-18C_hornet"@ {
        Some(1)
    } else if t == "F-14A-135-GR"@ || t == "F-14A-135-GR-Early"@ || t == "F-14A-95-GR"@ || t
        == "F-14B"@ || t == "F-14A/B"@ {
        Some(2)
    } else if t == "F-14B(U)"@ || t == "F-14BU"@ {
        Some(3)
    } else if t == "AV8BNA"@ {
        Some(4)
    } else if t == "A-6E"@ {
        Some(5)
    } else if t == "T-45"@ {
        Some(0)
    } else {
        None
    }
}

impl CarrierInfo {
    /// The catalogue entry of a DCS carrier type name.
    pub fn by_type(t: &str) -> (r: Option<CarrierInfo>)
        ensures
            r == spec_carrier_by_type(t@),
    {
        if str_equals(t, "CVN_71") || str_equals(t, "CVN_72") || str_equals(t, "CVN_73")
            || str_equals(t, "CVN_75") || str_equals(t, "Stennis") {
            Some(CarrierInfo { class: CarrierClass::Nimitz, recovery: CarrierRecovery::Arrested })
        } else if str_equals(t, "Forrestal") {
            Some(
                CarrierInfo { class: CarrierClass::Forrestal, recovery: CarrierRecovery::Arrested },
            )
        } else if str_equals(t, "LHA_Tarawa") {
            Some(CarrierInfo { class: CarrierClass::Tarawa, recovery: CarrierRecovery::Vstol })
        } else {
            None
        }
    }

    /// Whether the carrier recovers V/STOL aircraft.
    pub fn is_vstol(&self) -> (b: bool)
        ensures
            b == (self.recovery == CarrierRecovery::Vstol),
    {
        match self.recovery {
            CarrierRecovery::Vstol => true,
            CarrierRecovery::Arrested => false,
        }
    }

    /// Strict compatibility matrix: unsupported pairs never get a detector or an event stream.
    pub fn supports_aircraft_type(&self, aircraft_type: &str) -> (b: bool)
        ensures
            b == spec_supports(*self, aircraft_type@),
    {
        match self.recovery {
            CarrierRecovery::Vstol => str_equals(aircraft_type, "AV8BNA"),
            CarrierRecovery::Arrested => {
                AirplaneInfo::by_type(aircraft_type).is_some() && !str_equals(
                    aircraft_type,
                    "AV8BNA",
                )
            },
        }
    }
}

impl AirplaneInfo {
    /// The catalogue entry of a DCS aircraft type name.
    pub fn by_type(t: &str) -> (r: Option<AirplaneInfo>)
        ensures
            r == spec_airplane_by_type(t@),
    {
        if str_equals(t, "FA-18C_hornet") {
            Some(AirplaneInfo { model: AirplaneModel::FA18C, hook_argument_id: Some(25) })
        } else if str_equals(t, "F-14A-135-GR") || str_equals(t, "F-14A-135-GR-Early")
            || str_equals(t, "F-14A-95-GR") {
            Some(AirplaneInfo { model: AirplaneModel::F14A, hook_argument_id: Some(1305) })
        } else if str_equals(t, "F-14B") || str_equals(t, "F-14A/B") {
            Some(AirplaneInfo { model: AirplaneModel::F14B, hook_argument_id: Some(1305) })
        } else if str_equals(t, "F-14B(U)") || str_equals(t, "F-14BU") {
            Some(AirplaneInfo { model: AirplaneModel::F14BU, hook_argument_id: Some(1305) })
        } else if str_equals(t, "T-45") {
            Some(AirplaneInfo { model: AirplaneModel::T45, hook_argument_id: Some(25) })
        } else if str_equals(t, "AV8BNA") {
            Some(AirplaneInfo { model: AirplaneModel::AV8B, hook_argument_id: None })
        } else {
            None
        }
    }

    /// Whether the aircraft is the V/STOL AV-8B.
    pub fn is_vstol(&self) -> (b: bool)
        ensures
            b == (self.model == AirplaneModel::AV8B),
    {
        match self.model {
            AirplaneModel::AV8B => true,
            _ => false,
        }
    }
}

/// The numeric aircraft id of a DCS type name.
pub fn get_aircraft_id(t: &str) -> (r: Option<i64>)
    ensures
        r == spec_aircraft_id(t@),
{
    if str_equals(t, "FA-18C_hornet") {
        Some(1)
    } else if str_equals(t, "F-14A-135-GR") || str_equals(t, "F-14A-135-GR-Early")
        || str_equals(t, "F-14A-95-GR") || str_equals(t, "F-14B") || str_equals(t, "F-14A/B") {
        Some(2)
    } else if str_equals(t, "F-14B(U)") || str_equals(t, "F-14BU") {
        Some(3)
    } else if str_equals(t, "AV8BNA") {
        Some(4)
    } else if str_equals(t, "A-6E") {
        Some(5)
    } else if str_equals(t, "T-45") {
        Some(0)
    } else {
        None
    }
}

/// The compatibility matrix pairs each catalogued aircraft with exactly one recovery kind: a
/// carrier supports it if and only if the carrier is V/STOL exactly when the aircraft is.
pub proof fn lemma_compatibility_matrix(carrier: CarrierInfo, aircraft_type: Seq<char>)
    requires
        spec_airplane_by_type(aircraft_type) is Some,
    ensures
        spec_supports(carrier, aircraft_type) == ((carrier.recovery == CarrierRecovery::Vstol) == (
        spec_airplane_by_type(aircraft_type)->0.model == AirplaneModel::AV8B)),
{
    reveal_strlit("FA-18C_hornet");
    reveal_strlit("F-14A-135-GR");
    reveal_strlit("F-14A-135-GR-Early");
    reveal_strlit("F-14A-95-GR");
    reveal_strlit("F-14B");
    reveal_strlit("F-14A/B");
    reveal_strlit("F-14B(U)");
    reveal_strlit("F-14BU");
    reveal_strlit("T-45");
    reveal_strlit("AV8BNA");
    assert("FA-18C_hornet"@[0] != "AV8BNA"@[0]);
    assert("FA-18C_hornet"@ != "AV8BNA"@);
    assert("F-14A-135-GR"@[0] != "AV8BNA"@[0]);
    assert("F-14A-135-GR"@ != "AV8BNA"@);
    assert("F-14A-135-GR-Early"@[0] != "AV8BNA"@[0]);
    assert("F-14A-135-GR-Early"@ != "AV8BNA"@);
    assert("F-14A-95-GR"@[0] != "AV8BNA"@[0]);
    assert("F-14A-95-GR"@ != "AV8BNA"@);
    assert("F-14B"@[0] != "AV8BNA"@[0]);
    assert("F-14B"@ != "AV8BNA"@);
    assert("F-14A/B"@[0] != "AV8BNA"@[0]);
    assert("F-14A/B"@ != "AV8BNA"@);
    assert("F-14B(U)"@[0] != "AV8BNA"@[0]);
    assert("F-14B(U)"@ != "AV8BNA"@);
    assert("F-14BU"@[0] != "AV8BNA"@[0]);
    assert("F-14BU"@ != "AV8BNA"@);
    assert("T-45"@[0] != "AV8BNA"@[0]);
    assert("T-45"@ != "AV8BNA"@);
}

} // verus!
