//! Units eligible for recovery monitoring, and the identity of the pilot of an aircraft.
//!
//! The pilot of an aircraft is matched to a network player by the occupied slot only, never by
//! display name: duplicate names are legal and must not exchange UCIDs.
use std::collections::HashMap;
use vstd::prelude::*;
use crate::data::{spec_airplane_by_type, spec_carrier_by_type, spec_supports, AirplaneInfo, CarrierInfo};
use crate::decimal::{decimal, push_decimal, push_signed_decimal, signed_decimal};
use crate::outcome::PilotKind;
use crate::text::{chars_of, chars_eq, push_str, str_equals, string_from_chars, trim_ws, trimmed};

verus! {

/// A network player as the server lists it.
#[derive(Debug, Clone)]
pub struct NetworkPlayer {
    pub name: String,
    pub ucid: String,
    /// The occupied slot: a unit id or a unit name.
    pub slot: String,
}

/// A discovered aircraft unit.
#[derive(Debug, Clone)]
pub struct DiscoveredUnit {
    pub id: u32,
    pub name: String,
    pub unit_type: Option<String>,
    /// Name of the human pilot, when the unit reports one.
    pub player_name: Option<String>,
}

/// An aircraft eligible for recovery monitoring, resolved once at discovery or birth.
#[derive(Debug, Clone)]
pub struct PlaneCandidate {
    pub id: u32,
    pub name: String,
    pub pilot_name: String,
    pub plane_type: String,
    pub plane_info: AirplaneInfo,
    pub pilot_kind: PilotKind,
    /// Stable private identity of the pilot: the UCID of a resolved human, otherwise scoped to
    /// the session and the unit. Never emitted to public reports or logs.
    pub pilot_identity: String,
    pub pilot_ucid: Option<String>,
}

/// A carrier eligible for recovery monitoring.
#[derive(Debug, Clone)]
pub struct CarrierCandidate {
    pub id: u32,
    pub name: String,
    pub carrier_type: String,
    pub carrier_info: CarrierInfo,
}

/// Units known to the current generation, keyed by DCS unit id. Birth events insert or
/// replace entries; a unit that is no longer found is removed.
#[derive(Debug, Default)]
pub struct UnitRegistry {
    pub planes: HashMap<u32, PlaneCandidate>,
    pub carriers: HashMap<u32, CarrierCandidate>,
}

impl UnitRegistry {
    /// Forgets a unit that no longer exists: it is afterwards neither a known plane nor a known
    /// carrier, and every other unit stays as it was.
    pub fn forget(&mut self, id: u32)
        ensures
            final(self).planes@ == old(self).planes@.remove(id),
            final(self).carriers@ == old(self).carriers@.remove(id),
    {
        proof {
            broadcast use vstd::std_specs::hash::group_hash_axioms;
        }
        self.planes.remove(&id);
        self.carriers.remove(&id);
    }
}

/// The positions, in order, of the carriers that can recover the aircraft type `plane_type`.
pub fn compatible_carriers(plane_type: &str, carriers: &Vec<CarrierCandidate>) -> (r: Vec<usize>)
    ensures
        forall|k: int| 0 <= k < r@.len() ==> r@[k] < carriers@.len(),
        forall|k: int, l: int| 0 <= k < l < r@.len() ==> r@[k] < r@[l],
        forall|j: int|
            0 <= j < carriers@.len() ==> (r@.contains(j as usize) <==> spec_supports(
                #[trigger] carriers@[j].carrier_info,
                plane_type@,
            )),
{
    let mut r: Vec<usize> = Vec::new();
    let mut j: usize = 0;
    while j < carriers.len()
        invariant
            j <= carriers@.len(),
            forall|k: int| 0 <= k < r@.len() ==> r@[k] < j,
            forall|k: int, l: int| 0 <= k < l < r@.len() ==> r@[k] < r@[l],
            forall|i: int|
                0 <= i < j ==> (r@.contains(i as usize) <==> spec_supports(
                    #[trigger] carriers@[i].carrier_info,
                    plane_type@,
                )),
        decreases carriers@.len() - j,
    {
        let ghost before = r@;
        if carriers[j].carrier_info.supports_aircraft_type(plane_type) {
            r.push(j);
        }
        assert forall|i: int| 0 <= i < j + 1 implies (r@.contains(i as usize) <==> spec_supports(
            #[trigger] carriers@[i].carrier_info,
            plane_type@,
        )) by {
            if i < j {
                if r@.contains(i as usize) {
                    let k = choose|k: int| 0 <= k < r@.len() && r@[k] == i as usize;
                    assert(k < before.len());
                    assert(before[k] == i as usize);
                } else if before.contains(i as usize) {
                    let k = choose|k: int| 0 <= k < before.len() && before[k] == i as usize;
                    assert(r@[k] == i as usize);
                }
            } else {
                if r@.contains(i as usize) {
                    let k = choose|k: int| 0 <= k < r@.len() && r@[k] == i as usize;
                    if k < before.len() {
                        assert(before[k] < j);
                    }
                } else if spec_supports(carriers@[i].carrier_info, plane_type@) {
                    assert(r@[r@.len() - 1] == j);
                }
            }
        }
        j += 1;
    }
    r
}

/// Whether a player occupies the slot of `unit`: the slot is the unit's id or its name.
pub open spec fn occupies(player: NetworkPlayer, unit: DiscoveredUnit) -> bool {
    player.slot@ == decimal(unit.id as nat) || player.slot@ == unit.name@
}

/// The first player, from index `i` on, occupying the slot of `unit`.
pub open spec fn slot_player_from(players: Seq<NetworkPlayer>, unit: DiscoveredUnit, i: int) -> Option<int>
    decreases players.len() - i,
{
    if i < 0 || i >= players.len() {
        None
    } else if occupies(players[i], unit) {
        Some(i)
    } else {
        slot_player_from(players, unit, i + 1)
    }
}

/// A text trimmed of surrounding whitespace, when something is left.
pub open spec fn non_empty_trimmed(s: Seq<char>) -> Option<Seq<char>> {
    if trim_ws(s).len() == 0 {
        None
    } else {
        Some(trim_ws(s))
    }
}

/// An optional text seen as characters.
pub open spec fn opt_chars(o: Option<String>) -> Option<Seq<char>> {
    match o {
        Some(s) => Some(s@),
        None => None,
    }
}

/// The private identity of a pilot.
pub open spec fn identity_text(kind: PilotKind, ucid: Option<Seq<char>>, session_id: i64, unit_id: u32) -> Seq<char> {
    match (kind, ucid) {
        (PilotKind::Human, Some(u)) => u,
        (PilotKind::Human, None) => "human-unresolved:"@ + signed_decimal(session_id as int) + ":"@
            + decimal(unit_id as nat),
        (PilotKind::Ai, _) => "ai:"@ + signed_decimal(session_id as int) + ":"@ + decimal(
            unit_id as nat,
        ),
    }
}

/// What `plane_candidate` resolves for `unit` among `players` in session `session_id`: the
/// player in its slot decides whether a human flies it, gives the pilot name and the UCID
/// (both trimmed, ignored when empty); the unit's own player name, then its unit name, stand
/// in for a missing pilot name.
pub open spec fn candidate_holds(
    c: PlaneCandidate,
    unit: DiscoveredUnit,
    plane_info: AirplaneInfo,
    players: Seq<NetworkPlayer>,
    session_id: i64,
) -> bool {
    let found = slot_player_from(players, unit, 0);
    let kind = if unit.player_name is Some || found is Some {
        PilotKind::Human
    } else {
        PilotKind::Ai
    };
    let player_name = match found {
        Some(k) => non_empty_trimmed(players[k].name@),
        None => None,
    };
    let ucid = match found {
        Some(k) => non_empty_trimmed(players[k].ucid@),
        None => None,
    };
    &&& c.id == unit.id
    &&& c.name@ == unit.name@
    &&& c.plane_info == plane_info
    &&& c.plane_type@ == match unit.unit_type {
        Some(t) => t@,
        None => Seq::<char>::empty(),
    }
    &&& c.pilot_kind == kind
    &&& c.pilot_name@ == match player_name {
        Some(n) => n,
        None => match unit.player_name {
            Some(p) => p@,
            None => unit.name@,
        },
    }
    &&& opt_chars(c.pilot_ucid) == ucid
    &&& c.pilot_identity@ == identity_text(kind, ucid, session_id, unit.id)
}

/// The decimal text of a unit id.
fn id_text(id: u32) -> (v: Vec<char>)
    ensures
        v@ == decimal(id as nat),
{
    let mut v: Vec<char> = Vec::new();
    push_decimal(&mut v, id as u64);
    assert(v@ =~= decimal(id as nat));
    v
}

/// The index of the first player occupying the slot of `unit`.
fn find_slot_player(unit: &DiscoveredUnit, players: &[NetworkPlayer]) -> (r: Option<usize>)
    ensures
        opt_usize(r) == slot_player_from(players@, *unit, 0),
        r matches Some(k) ==> k < players@.len(),
{
    let id = id_text(unit.id);
    let name = chars_of(unit.name.as_str());
    let mut i: usize = 0;
    while i < players.len()
        invariant
            i <= players@.len(),
            id@ == decimal(unit.id as nat),
            name@ == unit.name@,
            slot_player_from(players@, *unit, 0) == slot_player_from(players@, *unit, i as int),
        decreases players@.len() - i,
    {
        let slot = chars_of(players[i].slot.as_str());
        if chars_eq(&slot, &id) || chars_eq(&slot, &name) {
            return Some(i);
        }
        i += 1;
    }
    None
}

/// An optional index seen as an integer.
pub open spec fn opt_usize(o: Option<usize>) -> Option<int> {
    match o {
        Some(k) => Some(k as int),
        None => None,
    }
}

/// `s` trimmed, as a string, when something is left.
fn trimmed_non_empty(s: &str) -> (r: Option<String>)
    ensures
        opt_chars(r) == non_empty_trimmed(s@),
{
    let v = chars_of(s);
    let t = trimmed(&v);
    if t.len() == 0 {
        None
    } else {
        Some(string_from_chars(&t))
    }
}

/// Resolves the pilot of an aircraft unit from the players connected in session `session_id`.
pub fn plane_candidate(
    unit: &DiscoveredUnit,
    plane_info: AirplaneInfo,
    players: &[NetworkPlayer],
    session_id: i64,
) -> (c: PlaneCandidate)
    ensures
        candidate_holds(c, *unit, plane_info, players@, session_id),
{
    let found = find_slot_player(unit, players);
    let pilot_kind = if unit.player_name.is_some() || found.is_some() {
        PilotKind::Human
    } else {
        PilotKind::Ai
    };
    let from_player = match found {
        Some(k) => trimmed_non_empty(players[k].name.as_str()),
        None => None,
    };
    let pilot_name = match from_player {
        Some(n) => n,
        None => match &unit.player_name {
            Some(p) => p.clone(),
            None => unit.name.clone(),
        },
    };
    let pilot_ucid = match found {
        Some(k) => trimmed_non_empty(players[k].ucid.as_str()),
        None => None,
    };
    let mut identity: Vec<char> = Vec::new();
    match (pilot_kind, &pilot_ucid) {
        (PilotKind::Human, Some(u)) => push_str(&mut identity, u.as_str()),
        (PilotKind::Human, None) => {
            push_str(&mut identity, "human-unresolved:");
            push_signed_decimal(&mut identity, session_id);
            push_str(&mut identity, ":");
            push_decimal(&mut identity, unit.id as u64);
        },
        (PilotKind::Ai, _) => {
            push_str(&mut identity, "ai:");
            push_signed_decimal(&mut identity, session_id);
            push_str(&mut identity, ":");
            push_decimal(&mut identity, unit.id as u64);
        },
    }
    assert(identity@ =~= identity_text(pilot_kind, opt_chars(pilot_ucid), session_id, unit.id));
    let plane_type = match &unit.unit_type {
        Some(t) => t.clone(),
        None => string_from_chars(&Vec::new()),
    };
    PlaneCandidate {
        id: unit.id,
        name: unit.name.clone(),
        pilot_name,
        plane_type,
        plane_info,
        pilot_kind,
        pilot_identity: string_from_chars(&identity),
        pilot_ucid,
    }
}

/// The category of a unit's group, as far as discovery tells them apart.
#[derive(Debug, Clone, Copy, PartialEq, Eq)]
pub enum GroupCategory {
    Airplane,
    Ship,
    Other,
}

/// A unit that can be monitored: a supported carrier or a supported aircraft.
#[derive(Debug, Clone, Copy, PartialEq, Eq)]
pub enum Candidate {
    Carrier(CarrierInfo),
    Plane(AirplaneInfo),
}

/// What a unit's group and type decide before its descriptor is read.
#[derive(Debug, Clone, Copy, PartialEq, Eq)]
pub enum CandidateCheck {
    /// The unit is this candidate, or none.
    Decided(Option<Candidate>),
    /// A ship: whether it is a carrier depends on the attributes of its descriptor.
    NeedsDescriptor,
}

/// The aircraft candidate of a type name, when the catalogue knows the type.
pub open spec fn plane_of(unit_type: Option<Seq<char>>) -> Option<Candidate> {
    match unit_type {
        Some(t) => match spec_airplane_by_type(t) {
            Some(a) => Some(Candidate::Plane(a)),
            None => None,
        },
        None => None,
    }
}

/// The carrier candidate of a type name, when the catalogue knows the type.
pub open spec fn carrier_of(unit_type: Option<Seq<char>>) -> Option<Candidate> {
    match unit_type {
        Some(t) => match spec_carrier_by_type(t) {
            Some(c) => Some(Candidate::Carrier(c)),
            None => None,
        },
        None => None,
    }
}

/// Aircraft are candidates when a player flies them, or AI ones when they are included; ships
/// need their descriptor; nothing else is a candidate.
pub open spec fn spec_candidate_check(
    category: Option<GroupCategory>,
    has_player: bool,
    include_ai: bool,
    unit_type: Option<Seq<char>>,
) -> CandidateCheck {
    match category {
        Some(GroupCategory::Airplane) => if has_player || include_ai {
            CandidateCheck::Decided(plane_of(unit_type))
        } else {
            CandidateCheck::Decided(None)
        },
        Some(GroupCategory::Ship) => CandidateCheck::NeedsDescriptor,
        _ => CandidateCheck::Decided(None),
    }
}

/// The view of an optional type name.
pub open spec fn opt_str(o: Option<&str>) -> Option<Seq<char>> {
    match o {
        Some(t) => Some(t@),
        None => None,
    }
}

/// What a unit's group category (`None` when the category is missing or unknown), whether a
/// player flies it, whether AI aircraft are included and its type name decide of it.
pub fn check_candidate(
    category: Option<GroupCategory>,
    has_player: bool,
    include_ai: bool,
    unit_type: Option<&str>,
) -> (r: CandidateCheck)
    ensures
        r == spec_candidate_check(category, has_player, include_ai, opt_str(unit_type)),
{
    match category {
        Some(GroupCategory::Airplane) => {
            if has_player || include_ai {
                match unit_type {
                    Some(t) => match AirplaneInfo::by_type(t) {
                        Some(a) => CandidateCheck::Decided(Some(Candidate::Plane(a))),
                        None => CandidateCheck::Decided(None),
                    },
                    None => CandidateCheck::Decided(None),
                }
            } else {
                CandidateCheck::Decided(None)
            }
        },
        Some(GroupCategory::Ship) => CandidateCheck::NeedsDescriptor,
        _ => CandidateCheck::Decided(None),
    }
}

/// A descriptor attribute that marks a carrier with arresting gear or a ski jump.
pub open spec fn is_carrier_attribute(a: Seq<char>) -> bool {
    a == "AircraftCarrier With Arresting Gear"@ || a == "AircraftCarrier With Tramplin"@
}

/// Whether some attribute marks a carrier.
pub open spec fn has_carrier_attribute(attributes: Seq<String>) -> bool {
    exists|i: int| 0 <= i < attributes.len() && is_carrier_attribute(#[trigger] attributes[i]@)
}

/// The carrier candidate of a ship whose descriptor has `attributes`: its catalogue entry when
/// some attribute marks it as a carrier, else none.
pub fn carrier_from_attributes(attributes: &Vec<String>, unit_type: Option<&str>) -> (r: Option<Candidate>)
    ensures
        r == (if has_carrier_attribute(attributes@) { carrier_of(opt_str(unit_type)) } else { None }),
{
    let mut found = false;
    let mut i: usize = 0;
    while i < attributes.len()
        invariant
            i <= attributes@.len(),
            found == exists|j: int| 0 <= j < i && is_carrier_attribute(#[trigger] attributes@[j]@),
        decreases attributes@.len() - i,
    {
        let a = attributes[i].as_str();
        if str_equals(a, "AircraftCarrier With Arresting Gear") || str_equals(a, "AircraftCarrier With Tramplin") {
            found = true;
        }
        i += 1;
    }
    if !found {
        return None;
    }
    match unit_type {
        Some(t) => match CarrierInfo::by_type(t) {
            Some(c) => Some(Candidate::Carrier(c)),
            None => None,
        },
        None => None,
    }
}

/// The message that refuses the options of the removed web board.
pub open spec fn removed_web_message() -> Seq<char> {
    "--web-port and --web-expose-ucid were removed in LSO 0.4.0: the greenie board is now the LSO page of the DCS Web Dashboard (set its LSO_DIR to this --out-dir)"@
}

/// Refuses the options of the web board removed in 0.4.0, rather than silently running
/// without the board the operator expected.
pub fn reject_removed_web_flags(web_port: Option<u16>, web_expose_ucid: bool) -> (r: Result<(), String>)
    ensures
        r is Ok <==> (web_port is None && !web_expose_ucid),
        r matches Err(m) ==> m@ == removed_web_message(),
{
    if web_port.is_some() || web_expose_ucid {
        let mut out: Vec<char> = Vec::new();
        push_str(
            &mut out,
            "--web-port and --web-expose-ucid were removed in LSO 0.4.0: the greenie board is now the LSO page of the DCS Web Dashboard (set its LSO_DIR to this --out-dir)",
        );
        return Err(string_from_chars(&out));
    }
    Ok(())
}

} // verus!
