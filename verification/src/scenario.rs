use vstd::prelude::*;
use vstd::std_specs::convert::FromSpecImpl;

verus! {

/// How riders are matched to drivers.
#[derive(Debug, Clone, Copy, PartialEq, Eq, Structural)]
pub enum MatchingAlgorithmType {
    Simple,
    CostBased,
    Hungarian,
}

/// How trips are routed.
#[derive(Debug, Clone, Copy, PartialEq, Eq, Structural)]
pub enum RoutingMode {
    H3Grid,
    Osrm,
}

/// Which traffic profile slows trips down.
#[derive(Debug, Clone, Copy, PartialEq, Eq, Structural)]
pub enum TrafficProfileMode {
    NoProfile,
    Berlin,
}

/// Where riders and drivers appear.
#[derive(Debug, Clone, Copy, PartialEq, Eq, Structural)]
pub enum SpawnMode {
    Uniform,
    BerlinHotspots,
}

/// The matching algorithm as stored in a preset.
#[derive(Debug, Clone, Copy, PartialEq, Eq, Structural)]
pub enum MatchingAlgorithmPresetV1 {
    Simple,
    CostBased,
    Hungarian,
}

/// The routing mode as stored in a preset.
#[derive(Debug, Clone, Copy, PartialEq, Eq, Structural)]
pub enum RoutingModePresetV1 {
    H3Grid,
    Osrm,
}

/// The traffic profile as stored in a preset.
#[derive(Debug, Clone, Copy, PartialEq, Eq, Structural)]
pub enum TrafficProfileModePresetV1 {
    NoProfile,
    Berlin,
}

/// The spawn mode as stored in a preset.
#[derive(Debug, Clone, Copy, PartialEq, Eq, Structural)]
pub enum SpawnModePresetV1 {
    Uniform,
    BerlinHotspots,
}

pub open spec fn matching_to_preset(v: MatchingAlgorithmType) -> MatchingAlgorithmPresetV1 {
    match v {
        MatchingAlgorithmType::Simple => MatchingAlgorithmPresetV1::Simple,
        MatchingAlgorithmType::CostBased => MatchingAlgorithmPresetV1::CostBased,
        MatchingAlgorithmType::Hungarian => MatchingAlgorithmPresetV1::Hungarian,
    }
}

pub open spec fn matching_from_preset(v: MatchingAlgorithmPresetV1) -> MatchingAlgorithmType {
    match v {
        MatchingAlgorithmPresetV1::Simple => MatchingAlgorithmType::Simple,
        MatchingAlgorithmPresetV1::CostBased => MatchingAlgorithmType::CostBased,
        MatchingAlgorithmPresetV1::Hungarian => MatchingAlgorithmType::Hungarian,
    }
}

impl From<MatchingAlgorithmType> for MatchingAlgorithmPresetV1 {
    fn from(value: MatchingAlgorithmType) -> (r: Self) {
        match value {
            MatchingAlgorithmType::Simple => MatchingAlgorithmPresetV1::Simple,
            MatchingAlgorithmType::CostBased => MatchingAlgorithmPresetV1::CostBased,
            MatchingAlgorithmType::Hungarian => MatchingAlgorithmPresetV1::Hungarian,
        }
    }
}

impl FromSpecImpl<MatchingAlgorithmType> for MatchingAlgorithmPresetV1 {
    open spec fn obeys_from_spec() -> bool {
        true
    }

    open spec fn from_spec(v: MatchingAlgorithmType) -> Self {
        matching_to_preset(v)
    }
}

impl From<MatchingAlgorithmPresetV1> for MatchingAlgorithmType {
    fn from(value: MatchingAlgorithmPresetV1) -> (r: Self) {
        match value {
            MatchingAlgorithmPresetV1::Simple => MatchingAlgorithmType::Simple,
            MatchingAlgorithmPresetV1::CostBased => MatchingAlgorithmType::CostBased,
            MatchingAlgorithmPresetV1::Hungarian => MatchingAlgorithmType::Hungarian,
        }
    }
}

impl FromSpecImpl<MatchingAlgorithmPresetV1> for MatchingAlgorithmType {
    open spec fn obeys_from_spec() -> bool {
        true
    }

    open spec fn from_spec(v: MatchingAlgorithmPresetV1) -> Self {
        matching_from_preset(v)
    }
}

/// Storing a matching algorithm in a preset and reading it back gives it unchanged.
pub proof fn law_matching_round_trip(v: MatchingAlgorithmType)
    ensures
        matching_from_preset(matching_to_preset(v)) == v,
{
}

pub open spec fn routing_to_preset(v: RoutingMode) -> RoutingModePresetV1 {
    match v {
        RoutingMode::H3Grid => RoutingModePresetV1::H3Grid,
        RoutingMode::Osrm => RoutingModePresetV1::Osrm,
    }
}

pub open spec fn routing_from_preset(v: RoutingModePresetV1) -> RoutingMode {
    match v {
        RoutingModePresetV1::H3Grid => RoutingMode::H3Grid,
        RoutingModePresetV1::Osrm => RoutingMode::Osrm,
    }
}

impl From<RoutingMode> for RoutingModePresetV1 {
    fn from(value: RoutingMode) -> (r: Self) {
        match value {
            RoutingMode::H3Grid => RoutingModePresetV1::H3Grid,
            RoutingMode::Osrm => RoutingModePresetV1::Osrm,
        }
    }
}

impl FromSpecImpl<RoutingMode> for RoutingModePresetV1 {
    open spec fn obeys_from_spec() -> bool {
        true
    }

    open spec fn from_spec(v: RoutingMode) -> Self {
        routing_to_preset(v)
    }
}

impl From<RoutingModePresetV1> for RoutingMode {
    fn from(value: RoutingModePresetV1) -> (r: Self) {
        match value {
            RoutingModePresetV1::H3Grid => RoutingMode::H3Grid,
            RoutingModePresetV1::Osrm => RoutingMode::Osrm,
        }
    }
}

impl FromSpecImpl<RoutingModePresetV1> for RoutingMode {
    open spec fn obeys_from_spec() -> bool {
        true
    }

    open spec fn from_spec(v: RoutingModePresetV1) -> Self {
        routing_from_preset(v)
    }
}

/// Storing a routing mode in a preset and reading it back gives it unchanged.
pub proof fn law_routing_round_trip(v: RoutingMode)
    ensures
        routing_from_preset(routing_to_preset(v)) == v,
{
}

pub open spec fn traffic_to_preset(v: TrafficProfileMode) -> TrafficProfileModePresetV1 {
    match v {
        TrafficProfileMode::NoProfile => TrafficProfileModePresetV1::NoProfile,
        TrafficProfileMode::Berlin => TrafficProfileModePresetV1::Berlin,
    }
}

pub open spec fn traffic_from_preset(v: TrafficProfileModePresetV1) -> TrafficProfileMode {
    match v {
        TrafficProfileModePresetV1::NoProfile => TrafficProfileMode::NoProfile,
        TrafficProfileModePresetV1::Berlin => TrafficProfileMode::Berlin,
    }
}

impl From<TrafficProfileMode> for TrafficProfileModePresetV1 {
    fn from(value: TrafficProfileMode) -> (r: Self) {
        match value {
            TrafficProfileMode::NoProfile => TrafficProfileModePresetV1::NoProfile,
            TrafficProfileMode::Berlin => TrafficProfileModePresetV1::Berlin,
        }
    }
}

impl FromSpecImpl<TrafficProfileMode> for TrafficProfileModePresetV1 {
    open spec fn obeys_from_spec() -> bool {
        true
    }

    open spec fn from_spec(v: TrafficProfileMode) -> Self {
        traffic_to_preset(v)
    }
}

impl From<TrafficProfileModePresetV1> for TrafficProfileMode {
    fn from(value: TrafficProfileModePresetV1) -> (r: Self) {
        match value {
            TrafficProfileModePresetV1::NoProfile => TrafficProfileMode::NoProfile,
            TrafficProfileModePresetV1::Berlin => TrafficProfileMode::Berlin,
        }
    }
}

impl FromSpecImpl<TrafficProfileModePresetV1> for TrafficProfileMode {
    open spec fn obeys_from_spec() -> bool {
        true
    }

    open spec fn from_spec(v: TrafficProfileModePresetV1) -> Self {
        traffic_from_preset(v)
    }
}

/// Storing a traffic profile in a preset and reading it back gives it unchanged.
pub proof fn law_traffic_round_trip(v: TrafficProfileMode)
    ensures
        traffic_from_preset(traffic_to_preset(v)) == v,
{
}

pub open spec fn spawn_to_preset(v: SpawnMode) -> SpawnModePresetV1 {
    match v {
        SpawnMode::Uniform => SpawnModePresetV1::Uniform,
        SpawnMode::BerlinHotspots => SpawnModePresetV1::BerlinHotspots,
    }
}

pub open spec fn spawn_from_preset(v: SpawnModePresetV1) -> SpawnMode {
    match v {
        SpawnModePresetV1::Uniform => SpawnMode::Uniform,
        SpawnModePresetV1::BerlinHotspots => SpawnMode::BerlinHotspots,
    }
}

impl From<SpawnMode> for SpawnModePresetV1 {
    fn from(value: SpawnMode) -> (r: Self) {
        match value {
            SpawnMode::Uniform => SpawnModePresetV1::Uniform,
            SpawnMode::BerlinHotspots => SpawnModePresetV1::BerlinHotspots,
        }
    }
}

impl FromSpecImpl<SpawnMode> for SpawnModePresetV1 {
    open spec fn obeys_from_spec() -> bool {
        true
    }

    open spec fn from_spec(v: SpawnMode) -> Self {
        spawn_to_preset(v)
    }
}

impl From<SpawnModePresetV1> for SpawnMode {
    fn from(value: SpawnModePresetV1) -> (r: Self) {
        match value {
            SpawnModePresetV1::Uniform => SpawnMode::Uniform,
            SpawnModePresetV1::BerlinHotspots => SpawnMode::BerlinHotspots,
        }
    }
}

impl FromSpecImpl<SpawnModePresetV1> for SpawnMode {
    open spec fn obeys_from_spec() -> bool {
        true
    }

    open spec fn from_spec(v: SpawnModePresetV1) -> Self {
        spawn_from_preset(v)
    }
}

/// Storing a spawn mode in a preset and reading it back gives it unchanged.
pub proof fn law_spawn_round_trip(v: SpawnMode)
    ensures
        spawn_from_preset(spawn_to_preset(v)) == v,
{
}

} // verus!
