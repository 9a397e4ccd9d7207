//! Scheme files (`.wsc`): the game settings of a match (turn time, wind,
//! per-weapon ammunition and delay, and many more).
//!
//! A file is the magic `SCHM`, a version byte and a payload whose size
//! depends on the version:
//!   1: 216 bytes: 36 option bytes and 45 weapons of 4 bytes,
//!   2: 292 bytes: version 1 and 19 super weapons of 4 bytes,
//!   3: up to 402 bytes: version 2 and up to 110 bytes of extended options,
//!      missing extended bytes taking their default values.
//! Schemes are always written as full version 3 files.
use vstd::prelude::*;

use crate::fixed::Fixed;
use crate::layout::{
    decode_fields, decode_fields_from, encode_fields, encode_fields_into, field_error, first_error,
    first_error_of, fs, in_width, layout_ok, layout_size, mk_field, vals_ok, width_ok, FieldSpec,
    LayoutError,
};

verus! {

/// Size of the file header (magic and version byte).
pub const SCHEME_HEADER_SIZE: usize = 5;
/// Byte offset within the payload where the game options start.
pub const OPTIONS_OFFSET: usize = 0;
/// Size of the game options section of the payload.
pub const OPTIONS_SIZE: usize = 36;
/// Byte offset within the payload where the standard weapon settings start.
pub const WEAPONS_V1_OFFSET: usize = 36;
/// Bytes per weapon entry.
pub const WEAPON_ENTRY_SIZE: usize = 4;
/// Number of weapons in version 1 schemes.
pub const WEAPONS_V1_COUNT: usize = 45;
/// Number of super weapons added in version 2.
pub const WEAPONS_V2_COUNT: usize = 19;
/// Total weapon entries of a full payload.
pub const WEAPONS_TOTAL_COUNT: usize = 64;
/// Size of the standard weapons section of the payload.
pub const STANDARD_WEAPONS_SIZE: usize = 180;
/// Byte offset within the payload where the standard weapon settings start.
pub const STANDARD_WEAPONS_OFFSET: usize = 36;
/// Byte offset within the payload where the super weapons start.
pub const WEAPONS_V2_OFFSET: usize = 216;
/// Size of the super weapons section of the payload.
pub const SUPER_WEAPONS_SIZE: usize = 76;
/// Byte offset within the payload where the super weapon settings start.
pub const SUPER_WEAPONS_OFFSET: usize = 216;
/// Size of the version 3 extended options section.
pub const EXTENDED_OPTIONS_SIZE: usize = 110;
/// Byte offset within the payload where the extended options start.
pub const EXTENDED_OPTIONS_OFFSET: usize = 292;
/// Payload size of version 1 schemes.
pub const SCHEME_PAYLOAD_V1: usize = 216;
/// Payload size of version 2 schemes.
pub const SCHEME_PAYLOAD_V2: usize = 292;
/// Payload size of version 3 schemes.
pub const SCHEME_PAYLOAD_V3: usize = 402;

/// The magic bytes `SCHM` that start every scheme file.
pub open spec fn spec_scheme_magic() -> Seq<u8> {
    seq![0x53u8, 0x43u8, 0x48u8, 0x4Du8]
}

pub fn scheme_magic() -> (r: [u8; 4])
    ensures
        r@ == spec_scheme_magic(),
{
    let r: [u8; 4] = [0x53u8, 0x43u8, 0x48u8, 0x4Du8];
    assert(r@ =~= spec_scheme_magic());
    r
}

/// Controls what the Sheep Heaven scheme option enables: a set of the
/// three bits below, of which at least one must be set.
#[derive(Debug, Clone, Copy, PartialEq, Eq, Structural)]
pub struct SheepHeavensGate(pub u8);

impl SheepHeavensGate {
    pub const SHEEP_EXPLODE_FROM_ALL_CRATES: u8 = 0x01;
    pub const EXTENDED_SHEEP_FUSE_TIME: u8 = 0x02;
    pub const BOOST_SHEEP_WEAPON_CRATE_PROBABILITY: u8 = 0x04;

    /// All three behaviours.
    pub fn all() -> (r: SheepHeavensGate)
        ensures
            r.0 == 7,
    {
        SheepHeavensGate(7)
    }

    pub fn bits(self) -> (r: u8)
        ensures
            r == self.0,
    {
        self.0
    }

    /// All bits of `flags` are set.
    pub fn contains(self, flags: u8) -> (r: bool)
        ensures
            r == (self.0 & flags == flags),
    {
        self.0 & flags == flags
    }
}

impl Default for SheepHeavensGate {
    fn default() -> (r: SheepHeavensGate)
        ensures
            r.0 == 7,
    {
        SheepHeavensGate(7)
    }
}


#[derive(Debug, Clone, Copy, PartialEq, Eq, Structural)]
pub enum StockpilingMode {
    Off,
    On,
    Anti,
}

/// The byte that stores each `StockpilingMode`.
pub open spec fn stockpiling_mode_code(x: StockpilingMode) -> u8 {
    match x {
        StockpilingMode::Off => 0u8,
        StockpilingMode::On => 1u8,
        StockpilingMode::Anti => 2u8,
    }
}

/// The `StockpilingMode` stored as `c` (meaningful for the codes of `StockpilingMode`).
pub open spec fn stockpiling_mode_of_code(c: u8) -> StockpilingMode {
    if c == 0u8 { StockpilingMode::Off } else
    if c == 1u8 { StockpilingMode::On } else
    { StockpilingMode::Anti }
}

impl StockpilingMode {
    pub fn code(self) -> (r: u8)
        ensures
            r == stockpiling_mode_code(self),
    {
        match self {
            StockpilingMode::Off => 0,
            StockpilingMode::On => 1,
            StockpilingMode::Anti => 2,
        }
    }

    pub fn from_code(c: u8) -> (r: StockpilingMode)
        requires
            c == 0u8 || c == 1u8 || c == 2u8,
        ensures
            r == stockpiling_mode_of_code(c),
            stockpiling_mode_code(r) == c,
    {
        if c == 0 {
            StockpilingMode::Off
        } else if c == 1 {
            StockpilingMode::On
        } else {
            StockpilingMode::Anti
        }
    }
}

impl Default for StockpilingMode {
    fn default() -> (r: StockpilingMode)
        ensures
            r == StockpilingMode::Off,
    {
        StockpilingMode::Off
    }
}

#[derive(Debug, Clone, Copy, PartialEq, Eq, Structural)]
pub enum WormSelect {
    Sequential,
    On,
    Random,
}

/// The byte that stores each `WormSelect`.
pub open spec fn worm_select_code(x: WormSelect) -> u8 {
    match x {
        WormSelect::Sequential => 0u8,
        WormSelect::On => 1u8,
        WormSelect::Random => 2u8,
    }
}

/// The `WormSelect` stored as `c` (meaningful for the codes of `WormSelect`).
pub open spec fn worm_select_of_code(c: u8) -> WormSelect {
    if c == 0u8 { WormSelect::Sequential } else
    if c == 1u8 { WormSelect::On } else
    { WormSelect::Random }
}

impl WormSelect {
    pub fn code(self) -> (r: u8)
        ensures
            r == worm_select_code(self),
    {
        match self {
            WormSelect::Sequential => 0,
            WormSelect::On => 1,
            WormSelect::Random => 2,
        }
    }

    pub fn from_code(c: u8) -> (r: WormSelect)
        requires
            c == 0u8 || c == 1u8 || c == 2u8,
        ensures
            r == worm_select_of_code(c),
            worm_select_code(r) == c,
    {
        if c == 0 {
            WormSelect::Sequential
        } else if c == 1 {
            WormSelect::On
        } else {
            WormSelect::Random
        }
    }
}

impl Default for WormSelect {
    fn default() -> (r: WormSelect)
        ensures
            r == WormSelect::Sequential,
    {
        WormSelect::Sequential
    }
}

#[derive(Debug, Clone, Copy, PartialEq, Eq, Structural)]
pub enum SuddenDeathEvent {
    RoundEnds,
    NuclearStrike,
    HpDrops,
    Nothing,
}

/// The byte that stores each `SuddenDeathEvent`.
pub open spec fn sudden_death_event_code(x: SuddenDeathEvent) -> u8 {
    match x {
        SuddenDeathEvent::RoundEnds => 0u8,
        SuddenDeathEvent::NuclearStrike => 1u8,
        SuddenDeathEvent::HpDrops => 2u8,
        SuddenDeathEvent::Nothing => 3u8,
    }
}

/// The `SuddenDeathEvent` stored as `c` (meaningful for the codes of `SuddenDeathEvent`).
pub open spec fn sudden_death_event_of_code(c: u8) -> SuddenDeathEvent {
    if c == 0u8 { SuddenDeathEvent::RoundEnds } else
    if c == 1u8 { SuddenDeathEvent::NuclearStrike } else
    if c == 2u8 { SuddenDeathEvent::HpDrops } else
    { SuddenDeathEvent::Nothing }
}

impl SuddenDeathEvent {
    pub fn code(self) -> (r: u8)
        ensures
            r == sudden_death_event_code(self),
    {
        match self {
            SuddenDeathEvent::RoundEnds => 0,
            SuddenDeathEvent::NuclearStrike => 1,
            SuddenDeathEvent::HpDrops => 2,
            SuddenDeathEvent::Nothing => 3,
        }
    }

    pub fn from_code(c: u8) -> (r: SuddenDeathEvent)
        requires
            c == 0u8 || c == 1u8 || c == 2u8 || c == 3u8,
        ensures
            r == sudden_death_event_of_code(c),
            sudden_death_event_code(r) == c,
    {
        if c == 0 {
            SuddenDeathEvent::RoundEnds
        } else if c == 1 {
            SuddenDeathEvent::NuclearStrike
        } else if c == 2 {
            SuddenDeathEvent::HpDrops
        } else {
            SuddenDeathEvent::Nothing
        }
    }
}

impl Default for SuddenDeathEvent {
    fn default() -> (r: SuddenDeathEvent)
        ensures
            r == SuddenDeathEvent::RoundEnds,
    {
        SuddenDeathEvent::RoundEnds
    }
}

#[derive(Debug, Clone, Copy, PartialEq, Eq, Structural)]
pub enum TriState {
    False,
    True,
    Default,
}

/// The byte that stores each `TriState`.
pub open spec fn tri_state_code(x: TriState) -> u8 {
    match x {
        TriState::False => 0u8,
        TriState::True => 1u8,
        TriState::Default => 128u8,
    }
}

/// The `TriState` stored as `c` (meaningful for the codes of `TriState`).
pub open spec fn tri_state_of_code(c: u8) -> TriState {
    if c == 0u8 { TriState::False } else
    if c == 1u8 { TriState::True } else
    { TriState::Default }
}

impl TriState {
    pub fn code(self) -> (r: u8)
        ensures
            r == tri_state_code(self),
    {
        match self {
            TriState::False => 0,
            TriState::True => 1,
            TriState::Default => 128,
        }
    }

    pub fn from_code(c: u8) -> (r: TriState)
        requires
            c == 0u8 || c == 1u8 || c == 128u8,
        ensures
            r == tri_state_of_code(c),
            tri_state_code(r) == c,
    {
        if c == 0 {
            TriState::False
        } else if c == 1 {
            TriState::True
        } else {
            TriState::Default
        }
    }
}

impl Default for TriState {
    fn default() -> (r: TriState)
        ensures
            r == TriState::Default,
    {
        TriState::Default
    }
}

#[derive(Debug, Clone, Copy, PartialEq, Eq, Structural)]
pub enum PhasedWorms {
    Off,
    Worms,
    WormsWeapons,
    WormsWeaponsDamage,
}

/// The byte that stores each `PhasedWorms`.
pub open spec fn phased_worms_code(x: PhasedWorms) -> u8 {
    match x {
        PhasedWorms::Off => 0u8,
        PhasedWorms::Worms => 1u8,
        PhasedWorms::WormsWeapons => 2u8,
        PhasedWorms::WormsWeaponsDamage => 3u8,
    }
}

/// The `PhasedWorms` stored as `c` (meaningful for the codes of `PhasedWorms`).
pub open spec fn phased_worms_of_code(c: u8) -> PhasedWorms {
    if c == 0u8 { PhasedWorms::Off } else
    if c == 1u8 { PhasedWorms::Worms } else
    if c == 2u8 { PhasedWorms::WormsWeapons } else
    { PhasedWorms::WormsWeaponsDamage }
}

impl PhasedWorms {
    pub fn code(self) -> (r: u8)
        ensures
            r == phased_worms_code(self),
    {
        match self {
            PhasedWorms::Off => 0,
            PhasedWorms::Worms => 1,
            PhasedWorms::WormsWeapons => 2,
            PhasedWorms::WormsWeaponsDamage => 3,
        }
    }

    pub fn from_code(c: u8) -> (r: PhasedWorms)
        requires
            c == 0u8 || c == 1u8 || c == 2u8 || c == 3u8,
        ensures
            r == phased_worms_of_code(c),
            phased_worms_code(r) == c,
    {
        if c == 0 {
            PhasedWorms::Off
        } else if c == 1 {
            PhasedWorms::Worms
        } else if c == 2 {
            PhasedWorms::WormsWeapons
        } else {
            PhasedWorms::WormsWeaponsDamage
        }
    }
}

impl Default for PhasedWorms {
    fn default() -> (r: PhasedWorms)
        ensures
            r == PhasedWorms::Off,
    {
        PhasedWorms::Off
    }
}

#[derive(Debug, Clone, Copy, PartialEq, Eq, Structural)]
pub enum RopeRollDrops {
    Disabled,
    AsFromRopeOnly,
    AsFromRopeOrJump,
}

/// The byte that stores each `RopeRollDrops`.
pub open spec fn rope_roll_drops_code(x: RopeRollDrops) -> u8 {
    match x {
        RopeRollDrops::Disabled => 0u8,
        RopeRollDrops::AsFromRopeOnly => 1u8,
        RopeRollDrops::AsFromRopeOrJump => 2u8,
    }
}

/// The `RopeRollDrops` stored as `c` (meaningful for the codes of `RopeRollDrops`).
pub open spec fn rope_roll_drops_of_code(c: u8) -> RopeRollDrops {
    if c == 0u8 { RopeRollDrops::Disabled } else
    if c == 1u8 { RopeRollDrops::AsFromRopeOnly } else
    { RopeRollDrops::AsFromRopeOrJump }
}

impl RopeRollDrops {
    pub fn code(self) -> (r: u8)
        ensures
            r == rope_roll_drops_code(self),
    {
        match self {
            RopeRollDrops::Disabled => 0,
            RopeRollDrops::AsFromRopeOnly => 1,
            RopeRollDrops::AsFromRopeOrJump => 2,
        }
    }

    pub fn from_code(c: u8) -> (r: RopeRollDrops)
        requires
            c == 0u8 || c == 1u8 || c == 2u8,
        ensures
            r == rope_roll_drops_of_code(c),
            rope_roll_drops_code(r) == c,
    {
        if c == 0 {
            RopeRollDrops::Disabled
        } else if c == 1 {
            RopeRollDrops::AsFromRopeOnly
        } else {
            RopeRollDrops::AsFromRopeOrJump
        }
    }
}

impl Default for RopeRollDrops {
    fn default() -> (r: RopeRollDrops)
        ensures
            r == RopeRollDrops::Disabled,
    {
        RopeRollDrops::Disabled
    }
}

#[derive(Debug, Clone, Copy, PartialEq, Eq, Structural)]
pub enum KeepControlAfterSkimming {
    LoseControl,
    KeepControl,
    KeepControlAndRope,
}

/// The byte that stores each `KeepControlAfterSkimming`.
pub open spec fn keep_control_after_skimming_code(x: KeepControlAfterSkimming) -> u8 {
    match x {
        KeepControlAfterSkimming::LoseControl => 0u8,
        KeepControlAfterSkimming::KeepControl => 1u8,
        KeepControlAfterSkimming::KeepControlAndRope => 2u8,
    }
}

/// The `KeepControlAfterSkimming` stored as `c` (meaningful for the codes of `KeepControlAfterSkimming`).
pub open spec fn keep_control_after_skimming_of_code(c: u8) -> KeepControlAfterSkimming {
    if c == 0u8 { KeepControlAfterSkimming::LoseControl } else
    if c == 1u8 { KeepControlAfterSkimming::KeepControl } else
    { KeepControlAfterSkimming::KeepControlAndRope }
}

impl KeepControlAfterSkimming {
    pub fn code(self) -> (r: u8)
        ensures
            r == keep_control_after_skimming_code(self),
    {
        match self {
            KeepControlAfterSkimming::LoseControl => 0,
            KeepControlAfterSkimming::KeepControl => 1,
            KeepControlAfterSkimming::KeepControlAndRope => 2,
        }
    }

    pub fn from_code(c: u8) -> (r: KeepControlAfterSkimming)
        requires
            c == 0u8 || c == 1u8 || c == 2u8,
        ensures
            r == keep_control_after_skimming_of_code(c),
            keep_control_after_skimming_code(r) == c,
    {
        if c == 0 {
            KeepControlAfterSkimming::LoseControl
        } else if c == 1 {
            KeepControlAfterSkimming::KeepControl
        } else {
            KeepControlAfterSkimming::KeepControlAndRope
        }
    }
}

impl Default for KeepControlAfterSkimming {
    fn default() -> (r: KeepControlAfterSkimming)
        ensures
            r == KeepControlAfterSkimming::LoseControl,
    {
        KeepControlAfterSkimming::LoseControl
    }
}

#[derive(Debug, Clone, Copy, PartialEq, Eq, Structural)]
pub enum Skipwalking {
    Disabled,
    Possible,
    Facilitated,
}

/// The byte that stores each `Skipwalking`.
pub open spec fn skipwalking_code(x: Skipwalking) -> u8 {
    match x {
        Skipwalking::Disabled => 255u8,
        Skipwalking::Possible => 0u8,
        Skipwalking::Facilitated => 1u8,
    }
}

/// The `Skipwalking` stored as `c` (meaningful for the codes of `Skipwalking`).
pub open spec fn skipwalking_of_code(c: u8) -> Skipwalking {
    if c == 255u8 { Skipwalking::Disabled } else
    if c == 0u8 { Skipwalking::Possible } else
    { Skipwalking::Facilitated }
}

impl Skipwalking {
    pub fn code(self) -> (r: u8)
        ensures
            r == skipwalking_code(self),
    {
        match self {
            Skipwalking::Disabled => 255,
            Skipwalking::Possible => 0,
            Skipwalking::Facilitated => 1,
        }
    }

    pub fn from_code(c: u8) -> (r: Skipwalking)
        requires
            c == 255u8 || c == 0u8 || c == 1u8,
        ensures
            r == skipwalking_of_code(c),
            skipwalking_code(r) == c,
    {
        if c == 255 {
            Skipwalking::Disabled
        } else if c == 0 {
            Skipwalking::Possible
        } else {
            Skipwalking::Facilitated
        }
    }
}

impl Default for Skipwalking {
    fn default() -> (r: Skipwalking)
        ensures
            r == Skipwalking::Possible,
    {
        Skipwalking::Possible
    }
}

#[derive(Debug, Clone, Copy, PartialEq, Eq, Structural)]
pub enum BlockRoofing {
    Allow,
    BlockAbove,
    BlockEverywhere,
}

/// The byte that stores each `BlockRoofing`.
pub open spec fn block_roofing_code(x: BlockRoofing) -> u8 {
    match x {
        BlockRoofing::Allow => 0u8,
        BlockRoofing::BlockAbove => 1u8,
        BlockRoofing::BlockEverywhere => 2u8,
    }
}

/// The `BlockRoofing` stored as `c` (meaningful for the codes of `BlockRoofing`).
pub open spec fn block_roofing_of_code(c: u8) -> BlockRoofing {
    if c == 0u8 { BlockRoofing::Allow } else
    if c == 1u8 { BlockRoofing::BlockAbove } else
    { BlockRoofing::BlockEverywhere }
}

impl BlockRoofing {
    pub fn code(self) -> (r: u8)
        ensures
            r == block_roofing_code(self),
    {
        match self {
            BlockRoofing::Allow => 0,
            BlockRoofing::BlockAbove => 1,
            BlockRoofing::BlockEverywhere => 2,
        }
    }

    pub fn from_code(c: u8) -> (r: BlockRoofing)
        requires
            c == 0u8 || c == 1u8 || c == 2u8,
        ensures
            r == block_roofing_of_code(c),
            block_roofing_code(r) == c,
    {
        if c == 0 {
            BlockRoofing::Allow
        } else if c == 1 {
            BlockRoofing::BlockAbove
        } else {
            BlockRoofing::BlockEverywhere
        }
    }
}

impl Default for BlockRoofing {
    fn default() -> (r: BlockRoofing)
        ensures
            r == BlockRoofing::Allow,
    {
        BlockRoofing::Allow
    }
}

#[derive(Debug, Clone, Copy, PartialEq, Eq, Structural)]
pub enum RubberWormGravityType {
    Unmodified,
    Standard,
    BlackHoleConstant,
    BlackHoleLinear,
}

/// The byte that stores each `RubberWormGravityType`.
pub open spec fn rubber_worm_gravity_type_code(x: RubberWormGravityType) -> u8 {
    match x {
        RubberWormGravityType::Unmodified => 0u8,
        RubberWormGravityType::Standard => 1u8,
        RubberWormGravityType::BlackHoleConstant => 2u8,
        RubberWormGravityType::BlackHoleLinear => 3u8,
    }
}

/// The `RubberWormGravityType` stored as `c` (meaningful for the codes of `RubberWormGravityType`).
pub open spec fn rubber_worm_gravity_type_of_code(c: u8) -> RubberWormGravityType {
    if c == 0u8 { RubberWormGravityType::Unmodified } else
    if c == 1u8 { RubberWormGravityType::Standard } else
    if c == 2u8 { RubberWormGravityType::BlackHoleConstant } else
    { RubberWormGravityType::BlackHoleLinear }
}

impl RubberWormGravityType {
    pub fn code(self) -> (r: u8)
        ensures
            r == rubber_worm_gravity_type_code(self),
    {
        match self {
            RubberWormGravityType::Unmodified => 0,
            RubberWormGravityType::Standard => 1,
            RubberWormGravityType::BlackHoleConstant => 2,
            RubberWormGravityType::BlackHoleLinear => 3,
        }
    }

    pub fn from_code(c: u8) -> (r: RubberWormGravityType)
        requires
            c == 0u8 || c == 1u8 || c == 2u8 || c == 3u8,
        ensures
            r == rubber_worm_gravity_type_of_code(c),
            rubber_worm_gravity_type_code(r) == c,
    {
        if c == 0 {
            RubberWormGravityType::Unmodified
        } else if c == 1 {
            RubberWormGravityType::Standard
        } else if c == 2 {
            RubberWormGravityType::BlackHoleConstant
        } else {
            RubberWormGravityType::BlackHoleLinear
        }
    }
}

impl Default for RubberWormGravityType {
    fn default() -> (r: RubberWormGravityType)
        ensures
            r == RubberWormGravityType::Unmodified,
    {
        RubberWormGravityType::Unmodified
    }
}

#[derive(Debug, Clone, Copy, PartialEq, Eq, Structural)]
pub enum HealthCratesCurePoison {
    Disabled,
    CollectingWorm,
    CollectingWormTeam,
    CollectingWormTeamsAllied,
}

/// The byte that stores each `HealthCratesCurePoison`.
pub open spec fn health_crates_cure_poison_code(x: HealthCratesCurePoison) -> u8 {
    match x {
        HealthCratesCurePoison::Disabled => 255u8,
        HealthCratesCurePoison::CollectingWorm => 0u8,
        HealthCratesCurePoison::CollectingWormTeam => 1u8,
        HealthCratesCurePoison::CollectingWormTeamsAllied => 2u8,
    }
}

/// The `HealthCratesCurePoison` stored as `c` (meaningful for the codes of `HealthCratesCurePoison`).
pub open spec fn health_crates_cure_poison_of_code(c: u8) -> HealthCratesCurePoison {
    if c == 255u8 { HealthCratesCurePoison::Disabled } else
    if c == 0u8 { HealthCratesCurePoison::CollectingWorm } else
    if c == 1u8 { HealthCratesCurePoison::CollectingWormTeam } else
    { HealthCratesCurePoison::CollectingWormTeamsAllied }
}

impl HealthCratesCurePoison {
    pub fn code(self) -> (r: u8)
        ensures
            r == health_crates_cure_poison_code(self),
    {
        match self {
            HealthCratesCurePoison::Disabled => 255,
            HealthCratesCurePoison::CollectingWorm => 0,
            HealthCratesCurePoison::CollectingWormTeam => 1,
            HealthCratesCurePoison::CollectingWormTeamsAllied => 2,
        }
    }

    pub fn from_code(c: u8) -> (r: HealthCratesCurePoison)
        requires
            c == 255u8 || c == 0u8 || c == 1u8 || c == 2u8,
        ensures
            r == health_crates_cure_poison_of_code(c),
            health_crates_cure_poison_code(r) == c,
    {
        if c == 255 {
            HealthCratesCurePoison::Disabled
        } else if c == 0 {
            HealthCratesCurePoison::CollectingWorm
        } else if c == 1 {
            HealthCratesCurePoison::CollectingWormTeam
        } else {
            HealthCratesCurePoison::CollectingWormTeamsAllied
        }
    }
}

impl Default for HealthCratesCurePoison {
    fn default() -> (r: HealthCratesCurePoison)
        ensures
            r == HealthCratesCurePoison::CollectingWormTeam,
    {
        HealthCratesCurePoison::CollectingWormTeam
    }
}

/// These are the core game settings displayed in the scheme editor.
///
/// Source: worms2d.info/Game_scheme_file, Ghidra analysis of Scheme__ReadFile.
#[derive(Debug, Clone, Copy, PartialEq, Eq, Structural)]
pub struct SchemeOptions {
    /// Extra time added between turns so players can switch seats or plan.
    pub hot_seat_delay: u8,
    /// Time available after using a weapon while grounded.
    pub retreat_time: u8,
    /// Time available after using a weapon while roping.
    pub rope_retreat_time: u8,
    /// Shows total round time along with turn time.
    pub display_total_round_time: bool,
    /// Automatically replays the ending of a significant turn outside online games.
    pub automatic_replays: bool,
    /// Damage dealt when a worm hits the ground at critical velocity.
    pub fall_damage: u8,
    /// Prevents worms from moving by walking or jumping.
    pub artillery_mode: bool,
    /// Unused by the game; scheme editors may use it as an editor marker.
    pub bounty_mode: u8,
    /// Controls what happens to unused weapons between rounds.
    pub stockpiling: StockpilingMode,
    /// Chooses how the active worm is selected each turn.
    pub worm_select: WormSelect,
    /// Event triggered after the remaining round time reaches zero.
    pub sudden_death_event: SuddenDeathEvent,
    /// Rate that water rises after each turn during sudden death.
    pub water_rise_rate: u8,
    /// Relative chance that a crate drop contains weapons.
    pub weapon_crate_probability: i8,
    /// Makes defeated teams drop a collectible donor card.
    pub donor_cards: bool,
    /// Relative chance that a crate drop contains energy.
    pub health_crate_probability: i8,
    /// Energy gained by collecting a health crate.
    pub health_crate_energy: u8,
    /// Relative chance that a crate drop contains a utility.
    pub utility_crate_probability: i8,
    /// Selects which hazards appear on the landscape.
    pub hazardous_object_types: u8,
    /// Time between activating a mine and it exploding.
    pub mine_delay: i8,
    /// Makes some landscape mines trigger as duds.
    pub dud_mines: bool,
    /// Lets players place worms on the landscape at the start of the round.
    pub manual_worm_placement: bool,
    /// Energy each worm begins the round with.
    pub worm_energy: u8,
    /// Time available to make a move.
    pub turn_time: u8,
    /// Time before sudden death is triggered.
    pub round_time: u8,
    /// Round wins required to win the match.
    pub number_of_wins: u8,
    /// Draws red particles instead of pink when worms are damaged.
    pub blood: bool,
    /// Converts Super Sheep into Aqua Sheep that can swim underwater.
    pub aqua_sheep: bool,
    /// Makes exploding sheep jump out of destroyed weapon crates.
    pub sheep_heaven: bool,
    /// Gives all worms infinite health except against drowning.
    pub god_worms: bool,
    /// Prevents the landscape from being destroyed except by rising water.
    pub indestructible_land: bool,
    /// Makes grenades more powerful.
    pub upgraded_grenade: bool,
    /// Makes the shotgun fire two consecutive shots.
    pub upgraded_shotgun: bool,
    /// Makes cluster weapons contain more clusters.
    pub upgraded_clusters: bool,
    /// Makes longbows more powerful.
    pub upgraded_longbow: bool,
    /// Lets teams start with their preselected team weapon.
    pub team_weapons: bool,
    /// Allows super weapons to appear in weapon crate drops.
    pub super_weapons: bool,
}

/// Default value of `SchemeOptions`.
pub open spec fn scheme_options_default() -> SchemeOptions {
    SchemeOptions {
        hot_seat_delay: 0u8,
        retreat_time: 0u8,
        rope_retreat_time: 0u8,
        display_total_round_time: false,
        automatic_replays: false,
        fall_damage: 0u8,
        artillery_mode: false,
        bounty_mode: 0u8,
        stockpiling: StockpilingMode::Off,
        worm_select: WormSelect::Sequential,
        sudden_death_event: SuddenDeathEvent::RoundEnds,
        water_rise_rate: 0u8,
        weapon_crate_probability: 0i8,
        donor_cards: false,
        health_crate_probability: 0i8,
        health_crate_energy: 0u8,
        utility_crate_probability: 0i8,
        hazardous_object_types: 0u8,
        mine_delay: 0i8,
        dud_mines: false,
        manual_worm_placement: false,
        worm_energy: 0u8,
        turn_time: 0u8,
        round_time: 0u8,
        number_of_wins: 0u8,
        blood: false,
        aqua_sheep: false,
        sheep_heaven: false,
        god_worms: false,
        indestructible_land: false,
        upgraded_grenade: false,
        upgraded_shotgun: false,
        upgraded_clusters: false,
        upgraded_longbow: false,
        team_weapons: false,
        super_weapons: false,
    }
}

impl Default for SchemeOptions {
    fn default() -> (r: SchemeOptions)
        ensures
            r == scheme_options_default(),
    {
        SchemeOptions {
            hot_seat_delay: 0,
            retreat_time: 0,
            rope_retreat_time: 0,
            display_total_round_time: false,
            automatic_replays: false,
            fall_damage: 0,
            artillery_mode: false,
            bounty_mode: 0,
            stockpiling: StockpilingMode::default(),
            worm_select: WormSelect::default(),
            sudden_death_event: SuddenDeathEvent::default(),
            water_rise_rate: 0,
            weapon_crate_probability: 0,
            donor_cards: false,
            health_crate_probability: 0,
            health_crate_energy: 0,
            utility_crate_probability: 0,
            hazardous_object_types: 0,
            mine_delay: 0,
            dud_mines: false,
            manual_worm_placement: false,
            worm_energy: 0,
            turn_time: 0,
            round_time: 0,
            number_of_wins: 0,
            blood: false,
            aqua_sheep: false,
            sheep_heaven: false,
            god_worms: false,
            indestructible_land: false,
            upgraded_grenade: false,
            upgraded_shotgun: false,
            upgraded_clusters: false,
            upgraded_longbow: false,
            team_weapons: false,
            super_weapons: false,
        }
    }
}

/// Field `i` of the layout of `SchemeOptions`.
pub open spec fn scheme_options_layout_at(i: int) -> FieldSpec {
    if i == 0 {
        fs(1u8, false, 0i64, 255i64, 0u8, 0u8, 0u8, 0u8, 0u8, false)
    } else if i == 1 {
        fs(1u8, false, 0i64, 255i64, 0u8, 0u8, 0u8, 0u8, 0u8, false)
    } else if i == 2 {
        fs(1u8, false, 0i64, 255i64, 0u8, 0u8, 0u8, 0u8, 0u8, false)
    } else if i == 3 {
        fs(1u8, false, 0i64, 0i64, 2u8, 0u8, 1u8, 0u8, 0u8, false)
    } else if i == 4 {
        fs(1u8, false, 0i64, 0i64, 2u8, 0u8, 1u8, 0u8, 0u8, false)
    } else if i == 5 {
        fs(1u8, false, 0i64, 255i64, 0u8, 0u8, 0u8, 0u8, 0u8, false)
    } else if i == 6 {
        fs(1u8, false, 0i64, 0i64, 2u8, 0u8, 1u8, 0u8, 0u8, false)
    } else if i == 7 {
        fs(1u8, false, 0i64, 255i64, 0u8, 0u8, 0u8, 0u8, 0u8, false)
    } else if i == 8 {
        fs(1u8, false, 0i64, 0i64, 3u8, 0u8, 1u8, 2u8, 0u8, false)
    } else if i == 9 {
        fs(1u8, false, 0i64, 0i64, 3u8, 0u8, 1u8, 2u8, 0u8, false)
    } else if i == 10 {
        fs(1u8, false, 0i64, 0i64, 4u8, 0u8, 1u8, 2u8, 3u8, false)
    } else if i == 11 {
        fs(1u8, false, 0i64, 255i64, 0u8, 0u8, 0u8, 0u8, 0u8, false)
    } else if i == 12 {
        fs(1u8, true, -128i64, 127i64, 0u8, 0u8, 0u8, 0u8, 0u8, false)
    } else if i == 13 {
        fs(1u8, false, 0i64, 0i64, 2u8, 0u8, 1u8, 0u8, 0u8, false)
    } else if i == 14 {
        fs(1u8, true, -128i64, 127i64, 0u8, 0u8, 0u8, 0u8, 0u8, false)
    } else if i == 15 {
        fs(1u8, false, 0i64, 255i64, 0u8, 0u8, 0u8, 0u8, 0u8, false)
    } else if i == 16 {
        fs(1u8, true, -128i64, 127i64, 0u8, 0u8, 0u8, 0u8, 0u8, false)
    } else if i == 17 {
        fs(1u8, false, 0i64, 255i64, 0u8, 0u8, 0u8, 0u8, 0u8, false)
    } else if i == 18 {
        fs(1u8, true, -128i64, 127i64, 0u8, 0u8, 0u8, 0u8, 0u8, false)
    } else if i == 19 {
        fs(1u8, false, 0i64, 0i64, 2u8, 0u8, 1u8, 0u8, 0u8, false)
    } else if i == 20 {
        fs(1u8, false, 0i64, 0i64, 2u8, 0u8, 1u8, 0u8, 0u8, false)
    } else if i == 21 {
        fs(1u8, false, 0i64, 255i64, 0u8, 0u8, 0u8, 0u8, 0u8, false)
    } else if i == 22 {
        fs(1u8, false, 0i64, 255i64, 0u8, 0u8, 0u8, 0u8, 0u8, false)
    } else if i == 23 {
        fs(1u8, false, 0i64, 255i64, 0u8, 0u8, 0u8, 0u8, 0u8, false)
    } else if i == 24 {
        fs(1u8, false, 0i64, 255i64, 0u8, 0u8, 0u8, 0u8, 0u8, false)
    } else if i == 25 {
        fs(1u8, false, 0i64, 0i64, 2u8, 0u8, 1u8, 0u8, 0u8, false)
    } else if i == 26 {
        fs(1u8, false, 0i64, 0i64, 2u8, 0u8, 1u8, 0u8, 0u8, false)
    } else if i == 27 {
        fs(1u8, false, 0i64, 0i64, 2u8, 0u8, 1u8, 0u8, 0u8, false)
    } else if i == 28 {
        fs(1u8, false, 0i64, 0i64, 2u8, 0u8, 1u8, 0u8, 0u8, false)
    } else if i == 29 {
        fs(1u8, false, 0i64, 0i64, 2u8, 0u8, 1u8, 0u8, 0u8, false)
    } else if i == 30 {
        fs(1u8, false, 0i64, 0i64, 2u8, 0u8, 1u8, 0u8, 0u8, false)
    } else if i == 31 {
        fs(1u8, false, 0i64, 0i64, 2u8, 0u8, 1u8, 0u8, 0u8, false)
    } else if i == 32 {
        fs(1u8, false, 0i64, 0i64, 2u8, 0u8, 1u8, 0u8, 0u8, false)
    } else if i == 33 {
        fs(1u8, false, 0i64, 0i64, 2u8, 0u8, 1u8, 0u8, 0u8, false)
    } else if i == 34 {
        fs(1u8, false, 0i64, 0i64, 2u8, 0u8, 1u8, 0u8, 0u8, false)
    } else if i == 35 {
        fs(1u8, false, 0i64, 0i64, 2u8, 0u8, 1u8, 0u8, 0u8, false)
    } else {
        fs(1u8, false, 0i64, 0i64, 0u8, 0u8, 0u8, 0u8, 0u8, false)
    }
}

/// Field layout of `SchemeOptions`.
pub open spec fn scheme_options_layout() -> Seq<FieldSpec> {
    Seq::new(36, |i: int| scheme_options_layout_at(i))
}

fn scheme_options_layout_field(i: usize) -> (r: FieldSpec)
    requires
        i < 36,
    ensures
        r == scheme_options_layout_at(i as int),
{
    if i == 0 {
        mk_field(1u8, false, 0i64, 255i64, 0u8, 0u8, 0u8, 0u8, 0u8, false)
    } else if i == 1 {
        mk_field(1u8, false, 0i64, 255i64, 0u8, 0u8, 0u8, 0u8, 0u8, false)
    } else if i == 2 {
        mk_field(1u8, false, 0i64, 255i64, 0u8, 0u8, 0u8, 0u8, 0u8, false)
    } else if i == 3 {
        mk_field(1u8, false, 0i64, 0i64, 2u8, 0u8, 1u8, 0u8, 0u8, false)
    } else if i == 4 {
        mk_field(1u8, false, 0i64, 0i64, 2u8, 0u8, 1u8, 0u8, 0u8, false)
    } else if i == 5 {
        mk_field(1u8, false, 0i64, 255i64, 0u8, 0u8, 0u8, 0u8, 0u8, false)
    } else if i == 6 {
        mk_field(1u8, false, 0i64, 0i64, 2u8, 0u8, 1u8, 0u8, 0u8, false)
    } else if i == 7 {
        mk_field(1u8, false, 0i64, 255i64, 0u8, 0u8, 0u8, 0u8, 0u8, false)
    } else if i == 8 {
        mk_field(1u8, false, 0i64, 0i64, 3u8, 0u8, 1u8, 2u8, 0u8, false)
    } else if i == 9 {
        mk_field(1u8, false, 0i64, 0i64, 3u8, 0u8, 1u8, 2u8, 0u8, false)
    } else if i == 10 {
        mk_field(1u8, false, 0i64, 0i64, 4u8, 0u8, 1u8, 2u8, 3u8, false)
    } else if i == 11 {
        mk_field(1u8, false, 0i64, 255i64, 0u8, 0u8, 0u8, 0u8, 0u8, false)
    } else if i == 12 {
        mk_field(1u8, true, -128i64, 127i64, 0u8, 0u8, 0u8, 0u8, 0u8, false)
    } else if i == 13 {
        mk_field(1u8, false, 0i64, 0i64, 2u8, 0u8, 1u8, 0u8, 0u8, false)
    } else if i == 14 {
        mk_field(1u8, true, -128i64, 127i64, 0u8, 0u8, 0u8, 0u8, 0u8, false)
    } else if i == 15 {
        mk_field(1u8, false, 0i64, 255i64, 0u8, 0u8, 0u8, 0u8, 0u8, false)
    } else if i == 16 {
        mk_field(1u8, true, -128i64, 127i64, 0u8, 0u8, 0u8, 0u8, 0u8, false)
    } else if i == 17 {
        mk_field(1u8, false, 0i64, 255i64, 0u8, 0u8, 0u8, 0u8, 0u8, false)
    } else if i == 18 {
        mk_field(1u8, true, -128i64, 127i64, 0u8, 0u8, 0u8, 0u8, 0u8, false)
    } else if i == 19 {
        mk_field(1u8, false, 0i64, 0i64, 2u8, 0u8, 1u8, 0u8, 0u8, false)
    } else if i == 20 {
        mk_field(1u8, false, 0i64, 0i64, 2u8, 0u8, 1u8, 0u8, 0u8, false)
    } else if i == 21 {
        mk_field(1u8, false, 0i64, 255i64, 0u8, 0u8, 0u8, 0u8, 0u8, false)
    } else if i == 22 {
        mk_field(1u8, false, 0i64, 255i64, 0u8, 0u8, 0u8, 0u8, 0u8, false)
    } else if i == 23 {
        mk_field(1u8, false, 0i64, 255i64, 0u8, 0u8, 0u8, 0u8, 0u8, false)
    } else if i == 24 {
        mk_field(1u8, false, 0i64, 255i64, 0u8, 0u8, 0u8, 0u8, 0u8, false)
    } else if i == 25 {
        mk_field(1u8, false, 0i64, 0i64, 2u8, 0u8, 1u8, 0u8, 0u8, false)
    } else if i == 26 {
        mk_field(1u8, false, 0i64, 0i64, 2u8, 0u8, 1u8, 0u8, 0u8, false)
    } else if i == 27 {
        mk_field(1u8, false, 0i64, 0i64, 2u8, 0u8, 1u8, 0u8, 0u8, false)
    } else if i == 28 {
        mk_field(1u8, false, 0i64, 0i64, 2u8, 0u8, 1u8, 0u8, 0u8, false)
    } else if i == 29 {
        mk_field(1u8, false, 0i64, 0i64, 2u8, 0u8, 1u8, 0u8, 0u8, false)
    } else if i == 30 {
        mk_field(1u8, false, 0i64, 0i64, 2u8, 0u8, 1u8, 0u8, 0u8, false)
    } else if i == 31 {
        mk_field(1u8, false, 0i64, 0i64, 2u8, 0u8, 1u8, 0u8, 0u8, false)
    } else if i == 32 {
        mk_field(1u8, false, 0i64, 0i64, 2u8, 0u8, 1u8, 0u8, 0u8, false)
    } else if i == 33 {
        mk_field(1u8, false, 0i64, 0i64, 2u8, 0u8, 1u8, 0u8, 0u8, false)
    } else if i == 34 {
        mk_field(1u8, false, 0i64, 0i64, 2u8, 0u8, 1u8, 0u8, 0u8, false)
    } else if i == 35 {
        mk_field(1u8, false, 0i64, 0i64, 2u8, 0u8, 1u8, 0u8, 0u8, false)
    } else {
        mk_field(1u8, false, 0i64, 0i64, 0u8, 0u8, 0u8, 0u8, 0u8, false)
    }
}

pub fn scheme_options_layout_exec() -> (l: Vec<FieldSpec>)
    ensures
        l@ == scheme_options_layout(),
{
    let mut l: Vec<FieldSpec> = Vec::new();
    let mut i: usize = 0;
    while i < 36
        invariant
            0 <= i <= 36,
            l@ =~= Seq::new(i as nat, |j: int| scheme_options_layout_at(j)),
        decreases 36 - i,
    {
        l.push(scheme_options_layout_field(i));
        i = i + 1;
    }
    l
}

/// Raw value of field `i` of `x`, in layout order.
pub open spec fn scheme_options_raw_at(x: SchemeOptions, i: int) -> i64 {
    if i == 0 {
        (x.hot_seat_delay as i64)
    } else if i == 1 {
        (x.retreat_time as i64)
    } else if i == 2 {
        (x.rope_retreat_time as i64)
    } else if i == 3 {
        (if x.display_total_round_time { 1i64 } else { 0i64 })
    } else if i == 4 {
        (if x.automatic_replays { 1i64 } else { 0i64 })
    } else if i == 5 {
        (x.fall_damage as i64)
    } else if i == 6 {
        (if x.artillery_mode { 1i64 } else { 0i64 })
    } else if i == 7 {
        (x.bounty_mode as i64)
    } else if i == 8 {
        (stockpiling_mode_code(x.stockpiling) as i64)
    } else if i == 9 {
        (worm_select_code(x.worm_select) as i64)
    } else if i == 10 {
        (sudden_death_event_code(x.sudden_death_event) as i64)
    } else if i == 11 {
        (x.water_rise_rate as i64)
    } else if i == 12 {
        (x.weapon_crate_probability as i64)
    } else if i == 13 {
        (if x.donor_cards { 1i64 } else { 0i64 })
    } else if i == 14 {
        (x.health_crate_probability as i64)
    } else if i == 15 {
        (x.health_crate_energy as i64)
    } else if i == 16 {
        (x.utility_crate_probability as i64)
    } else if i == 17 {
        (x.hazardous_object_types as i64)
    } else if i == 18 {
        (x.mine_delay as i64)
    } else if i == 19 {
        (if x.dud_mines { 1i64 } else { 0i64 })
    } else if i == 20 {
        (if x.manual_worm_placement { 1i64 } else { 0i64 })
    } else if i == 21 {
        (x.worm_energy as i64)
    } else if i == 22 {
        (x.turn_time as i64)
    } else if i == 23 {
        (x.round_time as i64)
    } else if i == 24 {
        (x.number_of_wins as i64)
    } else if i == 25 {
        (if x.blood { 1i64 } else { 0i64 })
    } else if i == 26 {
        (if x.aqua_sheep { 1i64 } else { 0i64 })
    } else if i == 27 {
        (if x.sheep_heaven { 1i64 } else { 0i64 })
    } else if i == 28 {
        (if x.god_worms { 1i64 } else { 0i64 })
    } else if i == 29 {
        (if x.indestructible_land { 1i64 } else { 0i64 })
    } else if i == 30 {
        (if x.upgraded_grenade { 1i64 } else { 0i64 })
    } else if i == 31 {
        (if x.upgraded_shotgun { 1i64 } else { 0i64 })
    } else if i == 32 {
        (if x.upgraded_clusters { 1i64 } else { 0i64 })
    } else if i == 33 {
        (if x.upgraded_longbow { 1i64 } else { 0i64 })
    } else if i == 34 {
        (if x.team_weapons { 1i64 } else { 0i64 })
    } else if i == 35 {
        (if x.super_weapons { 1i64 } else { 0i64 })
    } else {
        0
    }
}

/// Raw field values of `x`, in layout order.
pub open spec fn scheme_options_to_raw(x: SchemeOptions) -> Seq<i64> {
    Seq::new(36, |i: int| scheme_options_raw_at(x, i))
}

fn scheme_options_raw_value(x: &SchemeOptions, i: usize) -> (r: i64)
    requires
        i < 36,
    ensures
        r == scheme_options_raw_at(*x, i as int),
{
    if i == 0 {
        x.hot_seat_delay as i64
    } else if i == 1 {
        x.retreat_time as i64
    } else if i == 2 {
        x.rope_retreat_time as i64
    } else if i == 3 {
        if x.display_total_round_time { 1i64 } else { 0i64 }
    } else if i == 4 {
        if x.automatic_replays { 1i64 } else { 0i64 }
    } else if i == 5 {
        x.fall_damage as i64
    } else if i == 6 {
        if x.artillery_mode { 1i64 } else { 0i64 }
    } else if i == 7 {
        x.bounty_mode as i64
    } else if i == 8 {
        x.stockpiling.code() as i64
    } else if i == 9 {
        x.worm_select.code() as i64
    } else if i == 10 {
        x.sudden_death_event.code() as i64
    } else if i == 11 {
        x.water_rise_rate as i64
    } else if i == 12 {
        x.weapon_crate_probability as i64
    } else if i == 13 {
        if x.donor_cards { 1i64 } else { 0i64 }
    } else if i == 14 {
        x.health_crate_probability as i64
    } else if i == 15 {
        x.health_crate_energy as i64
    } else if i == 16 {
        x.utility_crate_probability as i64
    } else if i == 17 {
        x.hazardous_object_types as i64
    } else if i == 18 {
        x.mine_delay as i64
    } else if i == 19 {
        if x.dud_mines { 1i64 } else { 0i64 }
    } else if i == 20 {
        if x.manual_worm_placement { 1i64 } else { 0i64 }
    } else if i == 21 {
        x.worm_energy as i64
    } else if i == 22 {
        x.turn_time as i64
    } else if i == 23 {
        x.round_time as i64
    } else if i == 24 {
        x.number_of_wins as i64
    } else if i == 25 {
        if x.blood { 1i64 } else { 0i64 }
    } else if i == 26 {
        if x.aqua_sheep { 1i64 } else { 0i64 }
    } else if i == 27 {
        if x.sheep_heaven { 1i64 } else { 0i64 }
    } else if i == 28 {
        if x.god_worms { 1i64 } else { 0i64 }
    } else if i == 29 {
        if x.indestructible_land { 1i64 } else { 0i64 }
    } else if i == 30 {
        if x.upgraded_grenade { 1i64 } else { 0i64 }
    } else if i == 31 {
        if x.upgraded_shotgun { 1i64 } else { 0i64 }
    } else if i == 32 {
        if x.upgraded_clusters { 1i64 } else { 0i64 }
    } else if i == 33 {
        if x.upgraded_longbow { 1i64 } else { 0i64 }
    } else if i == 34 {
        if x.team_weapons { 1i64 } else { 0i64 }
    } else if i == 35 {
        if x.super_weapons { 1i64 } else { 0i64 }
    } else {
        0
    }
}

pub fn scheme_options_push_vals(x: &SchemeOptions, out: &mut Vec<i64>)
    ensures
        final(out)@ == old(out)@ + scheme_options_to_raw(*x),
{
    let ghost start = out@;
    let mut i: usize = 0;
    while i < 36
        invariant
            0 <= i <= 36,
            out@ =~= start + Seq::new(i as nat, |j: int| scheme_options_raw_at(*x, j)),
        decreases 36 - i,
    {
        out.push(scheme_options_raw_value(x, i));
        i = i + 1;
    }
    assert(out@ =~= start + scheme_options_to_raw(*x));
}

/// The `SchemeOptions` with the raw field values `s`, in layout order.
pub open spec fn scheme_options_from_raw(s: Seq<i64>) -> SchemeOptions {
    SchemeOptions {
        hot_seat_delay: s[0] as u8,
        retreat_time: s[1] as u8,
        rope_retreat_time: s[2] as u8,
        display_total_round_time: s[3] == 1,
        automatic_replays: s[4] == 1,
        fall_damage: s[5] as u8,
        artillery_mode: s[6] == 1,
        bounty_mode: s[7] as u8,
        stockpiling: stockpiling_mode_of_code(s[8] as u8),
        worm_select: worm_select_of_code(s[9] as u8),
        sudden_death_event: sudden_death_event_of_code(s[10] as u8),
        water_rise_rate: s[11] as u8,
        weapon_crate_probability: s[12] as i8,
        donor_cards: s[13] == 1,
        health_crate_probability: s[14] as i8,
        health_crate_energy: s[15] as u8,
        utility_crate_probability: s[16] as i8,
        hazardous_object_types: s[17] as u8,
        mine_delay: s[18] as i8,
        dud_mines: s[19] == 1,
        manual_worm_placement: s[20] == 1,
        worm_energy: s[21] as u8,
        turn_time: s[22] as u8,
        round_time: s[23] as u8,
        number_of_wins: s[24] as u8,
        blood: s[25] == 1,
        aqua_sheep: s[26] == 1,
        sheep_heaven: s[27] == 1,
        god_worms: s[28] == 1,
        indestructible_land: s[29] == 1,
        upgraded_grenade: s[30] == 1,
        upgraded_shotgun: s[31] == 1,
        upgraded_clusters: s[32] == 1,
        upgraded_longbow: s[33] == 1,
        team_weapons: s[34] == 1,
        super_weapons: s[35] == 1,
    }
}

#[verifier::rlimit(80)]
pub fn scheme_options_from_vals(v: &Vec<i64>, b: usize) -> (r: SchemeOptions)
    requires
        b + 36 <= v@.len(),
        vals_ok(scheme_options_layout(), v@.subrange(b as int, b + 36)),
    ensures
        r == scheme_options_from_raw(v@.subrange(b as int, b + 36)),
{
    let n: usize = v.len();
    let ghost sub = v@.subrange(b as int, b + 36);
    proof {
        assert(field_error(scheme_options_layout()[8], sub[8] as int) is None);
        assert(field_error(scheme_options_layout()[9], sub[9] as int) is None);
        assert(field_error(scheme_options_layout()[10], sub[10] as int) is None);
    }
    SchemeOptions {
        hot_seat_delay: v[b + 0] as u8,
        retreat_time: v[b + 1] as u8,
        rope_retreat_time: v[b + 2] as u8,
        display_total_round_time: v[b + 3] == 1,
        automatic_replays: v[b + 4] == 1,
        fall_damage: v[b + 5] as u8,
        artillery_mode: v[b + 6] == 1,
        bounty_mode: v[b + 7] as u8,
        stockpiling: StockpilingMode::from_code(v[b + 8] as u8),
        worm_select: WormSelect::from_code(v[b + 9] as u8),
        sudden_death_event: SuddenDeathEvent::from_code(v[b + 10] as u8),
        water_rise_rate: v[b + 11] as u8,
        weapon_crate_probability: v[b + 12] as i8,
        donor_cards: v[b + 13] == 1,
        health_crate_probability: v[b + 14] as i8,
        health_crate_energy: v[b + 15] as u8,
        utility_crate_probability: v[b + 16] as i8,
        hazardous_object_types: v[b + 17] as u8,
        mine_delay: v[b + 18] as i8,
        dud_mines: v[b + 19] == 1,
        manual_worm_placement: v[b + 20] == 1,
        worm_energy: v[b + 21] as u8,
        turn_time: v[b + 22] as u8,
        round_time: v[b + 23] as u8,
        number_of_wins: v[b + 24] as u8,
        blood: v[b + 25] == 1,
        aqua_sheep: v[b + 26] == 1,
        sheep_heaven: v[b + 27] == 1,
        god_worms: v[b + 28] == 1,
        indestructible_land: v[b + 29] == 1,
        upgraded_grenade: v[b + 30] == 1,
        upgraded_shotgun: v[b + 31] == 1,
        upgraded_clusters: v[b + 32] == 1,
        upgraded_longbow: v[b + 33] == 1,
        team_weapons: v[b + 34] == 1,
        super_weapons: v[b + 35] == 1,
    }
}

/// Reading back the raw values of `x` gives `x`.
pub proof fn lemma_scheme_options_raw_roundtrip(x: SchemeOptions)
    ensures
        scheme_options_to_raw(x).len() == 36,
        scheme_options_from_raw(scheme_options_to_raw(x)) == x,
{
    let s = scheme_options_to_raw(x);
    assert(stockpiling_mode_of_code(stockpiling_mode_code(x.stockpiling)) == x.stockpiling);
    assert(worm_select_of_code(worm_select_code(x.worm_select)) == x.worm_select);
    assert(sudden_death_event_of_code(sudden_death_event_code(x.sudden_death_event)) == x.sudden_death_event);
}

/// The raw values of the `SchemeOptions` read from valid raw values are those values.
#[verifier::rlimit(80)]
pub proof fn lemma_scheme_options_raw_canonical(s: Seq<i64>)
    requires
        vals_ok(scheme_options_layout(), s),
    ensures
        scheme_options_to_raw(scheme_options_from_raw(s)) == s,
{
    let x = scheme_options_from_raw(s);
    assert forall|i: int| 0 <= i < 8 implies #[trigger] scheme_options_raw_at(x, i) == s[i] by {
        assert(in_width(scheme_options_layout()[i], s[i] as int) && field_error(scheme_options_layout()[i], s[i] as int) is None);
    }
    assert forall|i: int| 8 <= i < 16 implies #[trigger] scheme_options_raw_at(x, i) == s[i] by {
        assert(in_width(scheme_options_layout()[i], s[i] as int) && field_error(scheme_options_layout()[i], s[i] as int) is None);
    }
    assert forall|i: int| 16 <= i < 24 implies #[trigger] scheme_options_raw_at(x, i) == s[i] by {
        assert(in_width(scheme_options_layout()[i], s[i] as int) && field_error(scheme_options_layout()[i], s[i] as int) is None);
    }
    assert forall|i: int| 24 <= i < 32 implies #[trigger] scheme_options_raw_at(x, i) == s[i] by {
        assert(in_width(scheme_options_layout()[i], s[i] as int) && field_error(scheme_options_layout()[i], s[i] as int) is None);
    }
    assert forall|i: int| 32 <= i < 36 implies #[trigger] scheme_options_raw_at(x, i) == s[i] by {
        assert(in_width(scheme_options_layout()[i], s[i] as int) && field_error(scheme_options_layout()[i], s[i] as int) is None);
    }
    assert(scheme_options_to_raw(x) =~= s);
}

pub proof fn lemma_scheme_options_layout_ok()
    ensures
        layout_ok(scheme_options_layout()),
        scheme_options_layout().len() == 36,
{
    assert forall|i: int| 0 <= i < scheme_options_layout().len() implies width_ok(#[trigger] scheme_options_layout()[i]) by {
    }
}

#[derive(Debug, Clone, Copy, PartialEq, Eq, Structural)]
pub struct RubberwormOptions {
    /// Makes worms spring back on collision and sets the strength of that bounce.
    pub bounciness: Fixed,
    /// Makes airborne objects experience friction and sets the strength of that friction.
    pub air_viscosity: Fixed,
    /// Applies air viscosity to worms as well.
    pub air_viscosity_applies_to_worms: bool,
    /// Extends the set of objects influenced by wind and sets the strength of that influence.
    pub wind_influence: Fixed,
    /// Applies wind influence to worms as well.
    pub wind_influence_applies_to_worms: bool,
    /// Selects the RubberWorm gravity behavior.
    pub gravity_type: RubberWormGravityType,
    /// Sets the strength or distance basis for RubberWorm gravity.
    pub gravity_strength: Fixed,
    /// Number of crates that can potentially spawn at the start of a turn.
    pub crate_rate: u8,
    /// Makes crates drop continuously during turns.
    pub crate_shower: bool,
    /// Teleports worms back to their last land position after touching the sea once.
    pub anti_sink: bool,
    /// Prevents weapon selection from resetting to a common weapon after rarer weapons are used.
    pub remember_weapons: bool,
    /// Allows all numeric keys to select weapon fuses and herd sizes.
    pub extended_fuses_herds: bool,
    /// Resets aiming angle to zero degrees after each shot.
    pub anti_lock_aim: bool,
}

/// Default value of `RubberwormOptions`.
pub open spec fn rubberworm_options_default() -> RubberwormOptions {
    RubberwormOptions {
        bounciness: Fixed(0),
        air_viscosity: Fixed(0),
        air_viscosity_applies_to_worms: false,
        wind_influence: Fixed(0),
        wind_influence_applies_to_worms: false,
        gravity_type: RubberWormGravityType::Unmodified,
        gravity_strength: Fixed(0x1_0000),
        crate_rate: 0u8,
        crate_shower: false,
        anti_sink: false,
        remember_weapons: false,
        extended_fuses_herds: false,
        anti_lock_aim: false,
    }
}

impl Default for RubberwormOptions {
    fn default() -> (r: RubberwormOptions)
        ensures
            r == rubberworm_options_default(),
    {
        RubberwormOptions {
            bounciness: Fixed(0),
            air_viscosity: Fixed(0),
            air_viscosity_applies_to_worms: false,
            wind_influence: Fixed(0),
            wind_influence_applies_to_worms: false,
            gravity_type: RubberWormGravityType::default(),
            gravity_strength: Fixed(0x1_0000),
            crate_rate: 0,
            crate_shower: false,
            anti_sink: false,
            remember_weapons: false,
            extended_fuses_herds: false,
            anti_lock_aim: false,
        }
    }
}

/// Field `i` of the layout of `RubberwormOptions`.
pub open spec fn rubberworm_options_layout_at(i: int) -> FieldSpec {
    if i == 0 {
        fs(4u8, true, 0i64, 65536i64, 0u8, 0u8, 0u8, 0u8, 0u8, false)
    } else if i == 1 {
        fs(4u8, true, 0i64, 16384i64, 0u8, 0u8, 0u8, 0u8, 0u8, false)
    } else if i == 2 {
        fs(1u8, false, 0i64, 0i64, 2u8, 0u8, 1u8, 0u8, 0u8, false)
    } else if i == 3 {
        fs(4u8, true, 0i64, 65536i64, 0u8, 0u8, 0u8, 0u8, 0u8, false)
    } else if i == 4 {
        fs(1u8, false, 0i64, 0i64, 2u8, 0u8, 1u8, 0u8, 0u8, false)
    } else if i == 5 {
        fs(1u8, false, 0i64, 0i64, 4u8, 0u8, 1u8, 2u8, 3u8, false)
    } else if i == 6 {
        fs(4u8, true, -1073741824i64, 1073741824i64, 0u8, 0u8, 0u8, 0u8, 0u8, false)
    } else if i == 7 {
        fs(1u8, false, 0i64, 255i64, 0u8, 0u8, 0u8, 0u8, 0u8, false)
    } else if i == 8 {
        fs(1u8, false, 0i64, 0i64, 2u8, 0u8, 1u8, 0u8, 0u8, false)
    } else if i == 9 {
        fs(1u8, false, 0i64, 0i64, 2u8, 0u8, 1u8, 0u8, 0u8, false)
    } else if i == 10 {
        fs(1u8, false, 0i64, 0i64, 2u8, 0u8, 1u8, 0u8, 0u8, false)
    } else if i == 11 {
        fs(1u8, false, 0i64, 0i64, 2u8, 0u8, 1u8, 0u8, 0u8, false)
    } else if i == 12 {
        fs(1u8, false, 0i64, 0i64, 2u8, 0u8, 1u8, 0u8, 0u8, false)
    } else {
        fs(1u8, false, 0i64, 0i64, 0u8, 0u8, 0u8, 0u8, 0u8, false)
    }
}

/// Field layout of `RubberwormOptions`.
pub open spec fn rubberworm_options_layout() -> Seq<FieldSpec> {
    Seq::new(13, |i: int| rubberworm_options_layout_at(i))
}

fn rubberworm_options_layout_field(i: usize) -> (r: FieldSpec)
    requires
        i < 13,
    ensures
        r == rubberworm_options_layout_at(i as int),
{
    if i == 0 {
        mk_field(4u8, true, 0i64, 65536i64, 0u8, 0u8, 0u8, 0u8, 0u8, false)
    } else if i == 1 {
        mk_field(4u8, true, 0i64, 16384i64, 0u8, 0u8, 0u8, 0u8, 0u8, false)
    } else if i == 2 {
        mk_field(1u8, false, 0i64, 0i64, 2u8, 0u8, 1u8, 0u8, 0u8, false)
    } else if i == 3 {
        mk_field(4u8, true, 0i64, 65536i64, 0u8, 0u8, 0u8, 0u8, 0u8, false)
    } else if i == 4 {
        mk_field(1u8, false, 0i64, 0i64, 2u8, 0u8, 1u8, 0u8, 0u8, false)
    } else if i == 5 {
        mk_field(1u8, false, 0i64, 0i64, 4u8, 0u8, 1u8, 2u8, 3u8, false)
    } else if i == 6 {
        mk_field(4u8, true, -1073741824i64, 1073741824i64, 0u8, 0u8, 0u8, 0u8, 0u8, false)
    } else if i == 7 {
        mk_field(1u8, false, 0i64, 255i64, 0u8, 0u8, 0u8, 0u8, 0u8, false)
    } else if i == 8 {
        mk_field(1u8, false, 0i64, 0i64, 2u8, 0u8, 1u8, 0u8, 0u8, false)
    } else if i == 9 {
        mk_field(1u8, false, 0i64, 0i64, 2u8, 0u8, 1u8, 0u8, 0u8, false)
    } else if i == 10 {
        mk_field(1u8, false, 0i64, 0i64, 2u8, 0u8, 1u8, 0u8, 0u8, false)
    } else if i == 11 {
        mk_field(1u8, false, 0i64, 0i64, 2u8, 0u8, 1u8, 0u8, 0u8, false)
    } else if i == 12 {
        mk_field(1u8, false, 0i64, 0i64, 2u8, 0u8, 1u8, 0u8, 0u8, false)
    } else {
        mk_field(1u8, false, 0i64, 0i64, 0u8, 0u8, 0u8, 0u8, 0u8, false)
    }
}

pub fn rubberworm_options_layout_exec() -> (l: Vec<FieldSpec>)
    ensures
        l@ == rubberworm_options_layout(),
{
    let mut l: Vec<FieldSpec> = Vec::new();
    let mut i: usize = 0;
    while i < 13
        invariant
            0 <= i <= 13,
            l@ =~= Seq::new(i as nat, |j: int| rubberworm_options_layout_at(j)),
        decreases 13 - i,
    {
        l.push(rubberworm_options_layout_field(i));
        i = i + 1;
    }
    l
}

/// Raw value of field `i` of `x`, in layout order.
pub open spec fn rubberworm_options_raw_at(x: RubberwormOptions, i: int) -> i64 {
    if i == 0 {
        (x.bounciness.0 as i64)
    } else if i == 1 {
        (x.air_viscosity.0 as i64)
    } else if i == 2 {
        (if x.air_viscosity_applies_to_worms { 1i64 } else { 0i64 })
    } else if i == 3 {
        (x.wind_influence.0 as i64)
    } else if i == 4 {
        (if x.wind_influence_applies_to_worms { 1i64 } else { 0i64 })
    } else if i == 5 {
        (rubber_worm_gravity_type_code(x.gravity_type) as i64)
    } else if i == 6 {
        (x.gravity_strength.0 as i64)
    } else if i == 7 {
        (x.crate_rate as i64)
    } else if i == 8 {
        (if x.crate_shower { 1i64 } else { 0i64 })
    } else if i == 9 {
        (if x.anti_sink { 1i64 } else { 0i64 })
    } else if i == 10 {
        (if x.remember_weapons { 1i64 } else { 0i64 })
    } else if i == 11 {
        (if x.extended_fuses_herds { 1i64 } else { 0i64 })
    } else if i == 12 {
        (if x.anti_lock_aim { 1i64 } else { 0i64 })
    } else {
        0
    }
}

/// Raw field values of `x`, in layout order.
pub open spec fn rubberworm_options_to_raw(x: RubberwormOptions) -> Seq<i64> {
    Seq::new(13, |i: int| rubberworm_options_raw_at(x, i))
}

fn rubberworm_options_raw_value(x: &RubberwormOptions, i: usize) -> (r: i64)
    requires
        i < 13,
    ensures
        r == rubberworm_options_raw_at(*x, i as int),
{
    if i == 0 {
        x.bounciness.0 as i64
    } else if i == 1 {
        x.air_viscosity.0 as i64
    } else if i == 2 {
        if x.air_viscosity_applies_to_worms { 1i64 } else { 0i64 }
    } else if i == 3 {
        x.wind_influence.0 as i64
    } else if i == 4 {
        if x.wind_influence_applies_to_worms { 1i64 } else { 0i64 }
    } else if i == 5 {
        x.gravity_type.code() as i64
    } else if i == 6 {
        x.gravity_strength.0 as i64
    } else if i == 7 {
        x.crate_rate as i64
    } else if i == 8 {
        if x.crate_shower { 1i64 } else { 0i64 }
    } else if i == 9 {
        if x.anti_sink { 1i64 } else { 0i64 }
    } else if i == 10 {
        if x.remember_weapons { 1i64 } else { 0i64 }
    } else if i == 11 {
        if x.extended_fuses_herds { 1i64 } else { 0i64 }
    } else if i == 12 {
        if x.anti_lock_aim { 1i64 } else { 0i64 }
    } else {
        0
    }
}

pub fn rubberworm_options_push_vals(x: &RubberwormOptions, out: &mut Vec<i64>)
    ensures
        final(out)@ == old(out)@ + rubberworm_options_to_raw(*x),
{
    let ghost start = out@;
    let mut i: usize = 0;
    while i < 13
        invariant
            0 <= i <= 13,
            out@ =~= start + Seq::new(i as nat, |j: int| rubberworm_options_raw_at(*x, j)),
        decreases 13 - i,
    {
        out.push(rubberworm_options_raw_value(x, i));
        i = i + 1;
    }
    assert(out@ =~= start + rubberworm_options_to_raw(*x));
}

/// The `RubberwormOptions` with the raw field values `s`, in layout order.
pub open spec fn rubberworm_options_from_raw(s: Seq<i64>) -> RubberwormOptions {
    RubberwormOptions {
        bounciness: Fixed(s[0] as i32),
        air_viscosity: Fixed(s[1] as i32),
        air_viscosity_applies_to_worms: s[2] == 1,
        wind_influence: Fixed(s[3] as i32),
        wind_influence_applies_to_worms: s[4] == 1,
        gravity_type: rubber_worm_gravity_type_of_code(s[5] as u8),
        gravity_strength: Fixed(s[6] as i32),
        crate_rate: s[7] as u8,
        crate_shower: s[8] == 1,
        anti_sink: s[9] == 1,
        remember_weapons: s[10] == 1,
        extended_fuses_herds: s[11] == 1,
        anti_lock_aim: s[12] == 1,
    }
}

#[verifier::rlimit(80)]
pub fn rubberworm_options_from_vals(v: &Vec<i64>, b: usize) -> (r: RubberwormOptions)
    requires
        b + 13 <= v@.len(),
        vals_ok(rubberworm_options_layout(), v@.subrange(b as int, b + 13)),
    ensures
        r == rubberworm_options_from_raw(v@.subrange(b as int, b + 13)),
{
    let n: usize = v.len();
    let ghost sub = v@.subrange(b as int, b + 13);
    proof {
        assert(field_error(rubberworm_options_layout()[5], sub[5] as int) is None);
    }
    RubberwormOptions {
        bounciness: Fixed(v[b + 0] as i32),
        air_viscosity: Fixed(v[b + 1] as i32),
        air_viscosity_applies_to_worms: v[b + 2] == 1,
        wind_influence: Fixed(v[b + 3] as i32),
        wind_influence_applies_to_worms: v[b + 4] == 1,
        gravity_type: RubberWormGravityType::from_code(v[b + 5] as u8),
        gravity_strength: Fixed(v[b + 6] as i32),
        crate_rate: v[b + 7] as u8,
        crate_shower: v[b + 8] == 1,
        anti_sink: v[b + 9] == 1,
        remember_weapons: v[b + 10] == 1,
        extended_fuses_herds: v[b + 11] == 1,
        anti_lock_aim: v[b + 12] == 1,
    }
}

/// Reading back the raw values of `x` gives `x`.
pub proof fn lemma_rubberworm_options_raw_roundtrip(x: RubberwormOptions)
    ensures
        rubberworm_options_to_raw(x).len() == 13,
        rubberworm_options_from_raw(rubberworm_options_to_raw(x)) == x,
{
    let s = rubberworm_options_to_raw(x);
    assert(rubber_worm_gravity_type_of_code(rubber_worm_gravity_type_code(x.gravity_type)) == x.gravity_type);
}

/// The raw values of the `RubberwormOptions` read from valid raw values are those values.
#[verifier::rlimit(80)]
pub proof fn lemma_rubberworm_options_raw_canonical(s: Seq<i64>)
    requires
        vals_ok(rubberworm_options_layout(), s),
    ensures
        rubberworm_options_to_raw(rubberworm_options_from_raw(s)) == s,
{
    let x = rubberworm_options_from_raw(s);
    assert forall|i: int| 0 <= i < 8 implies #[trigger] rubberworm_options_raw_at(x, i) == s[i] by {
        assert(in_width(rubberworm_options_layout()[i], s[i] as int) && field_error(rubberworm_options_layout()[i], s[i] as int) is None);
    }
    assert forall|i: int| 8 <= i < 13 implies #[trigger] rubberworm_options_raw_at(x, i) == s[i] by {
        assert(in_width(rubberworm_options_layout()[i], s[i] as int) && field_error(rubberworm_options_layout()[i], s[i] as int) is None);
    }
    assert(rubberworm_options_to_raw(x) =~= s);
}

pub proof fn lemma_rubberworm_options_layout_ok()
    ensures
        layout_ok(rubberworm_options_layout()),
        rubberworm_options_layout().len() == 13,
{
    assert forall|i: int| 0 <= i < rubberworm_options_layout().len() implies width_ok(#[trigger] rubberworm_options_layout()[i]) by {
    }
}

/// Options found only in Version 3 schemes.
///
/// Invalid values are reset to defaults when a scheme is loaded. Many settings
/// here were previously controlled through game logic versions or RubberWorm.
///
/// Source: worms2d.info/Game_scheme_file, Ghidra Scheme__ValidateExtendedOptions validation.
#[derive(Debug, Clone, Copy, PartialEq, Eq, Structural)]
pub struct ExtendedOptions {
    /// Format discriminator reserved for future interpretation changes.
    pub data_version: u32,
    /// Interprets the wind field as a constant value.
    pub constant_wind: bool,
    /// Wind strength and direction, or random-wind maximum when constant wind is off.
    pub wind: i16,
    /// Biases wind direction based on which side of the map worms occupy.
    pub wind_bias: u8,
    /// Acceleration due to gravity in pixels per frame per frame.
    pub gravity: Fixed,
    /// Proportion of velocity retained during terrain collisions.
    pub terrain_friction: Fixed,
    /// Rope knocking force relative to ordinary rope knocking.
    pub rope_knocking: u8,
    /// Amount of blood emitted from worms, without changing blood color.
    pub blood_level: u8,
    /// Allows the rope to fire below the horizontal and reduces rope friction.
    pub unrestrict_rope: bool,
    /// Groups worms by allied color during automatic worm placement.
    pub auto_place_worms_by_ally: bool,
    /// Probability that no crate falls at the start of a turn.
    pub no_crate_probability: u8,
    /// Maximum crates that may exist before the game stops spawning new ones.
    pub max_crate_count: u16,
    /// Disables Worm Select when sudden death starts.
    pub sd_disables_worm_select: bool,
    /// Health lost each turn when sudden death is set to nuclear strike.
    pub sd_worm_damage_per_turn: u8,
    /// Controls how allied worms move through and otherwise affect each other.
    pub phased_worms_allied: PhasedWorms,
    /// Controls how enemy worms move through and otherwise affect each other.
    pub phased_worms_enemy: PhasedWorms,
    /// Lets the crosshair continue past the top or bottom of its limits.
    pub circular_aim: bool,
    /// Resets aim between turns to make repeat shots more challenging.
    pub anti_lock_aim: bool,
    /// Makes power decrease after reaching maximum instead of firing the weapon.
    pub anti_lock_power: bool,
    /// Prevents worm selection at turn start from ending the hot-seat timer.
    pub worm_select_no_end_hot_seat: bool,
    /// Prevents Worm Selection from being cancelled by movement or similar actions.
    pub worm_select_never_cancelled: bool,
    /// Lets worms keep Ninja Rope, Bungee, or Jet Pack when a turn ends.
    pub batty_rope: bool,
    /// Controls which weapons may be dropped during a rope roll.
    pub rope_roll_drops: RopeRollDrops,
    /// Controls whether fast horizontal collisions make worms lose control.
    pub x_impact_loss_of_control: u8,
    /// Retains control after upward terrain collisions during rope or bungee rolls.
    pub keep_control_bump_head: bool,
    /// Controls what happens to worm control after skimming on water.
    pub keep_control_skimming: KeepControlAfterSkimming,
    /// Adds fall damage when worms are thrown by explosions.
    pub explosion_fall_damage: bool,
    /// Makes explosions push all objects.
    pub explosions_push_all: TriState,
    /// Delays crate content selection until pickup or Crate Spy collection.
    pub undetermined_crates: TriState,
    /// Delays random mine fuse selection until the mine is triggered.
    pub undetermined_fuses: TriState,
    /// Pauses the turn timer while a weapon is being fired.
    pub pause_timer_while_firing: bool,
    /// Prevents losing worm control from ending the turn.
    pub loss_of_control_no_end_turn: bool,
    /// Prevents weapon use from ending the turn.
    pub weapon_use_no_end_turn: bool,
    /// Keeps Earthquake, Armageddon, and Indian Nuclear Test available with weapon-use continuation.
    pub weapon_use_no_block: bool,
    /// Makes Pneumatic Drill hits impart horizontal velocity to the target worm.
    pub drill_imparts_velocity: TriState,
    /// Prevents the cursor from moving outside the valid girder placement radius.
    pub girder_radius_assist: bool,
    /// How much Petrol Bomb flames decay per turn.
    pub petrol_turn_decay: u16,
    /// How much Petrol Bomb flames decay when touched by a worm.
    pub petrol_touch_decay: u8,
    /// Maximum number of fire objects that can exist at once.
    pub max_flamelet_count: u16,
    /// Maximum speed for objects following projectile physics.
    pub max_projectile_speed: Fixed,
    /// Maximum speed for a worm attached to Ninja Rope or Bungee.
    pub max_rope_speed: Fixed,
    /// Maximum speed for a worm using Jet Pack.
    pub max_jet_pack_speed: Fixed,
    /// Speed at which physics and sound effects occur.
    pub game_engine_speed: Fixed,
    /// Allows moving worms to fire Ninja Rope vertically downwards.
    pub indian_rope_glitch: TriState,
    /// Allows well-timed jumps to release twice the selected Mad Cow herd count.
    pub herd_doubling_glitch: TriState,
    /// Allows Bungee to trigger from Jet Pack.
    pub jet_pack_bungee_glitch: bool,
    /// Allows moving worms to bypass angle limits on Baseball Bat and Longbow.
    pub angle_cheat_glitch: bool,
    /// Allows certain leftward collisions to continue motion instead of landing.
    pub glide_glitch: bool,
    /// Controls skip-walking behavior.
    pub skipwalking: Skipwalking,
    /// Controls whether roofing is allowed or blocked.
    pub block_roofing: BlockRoofing,
    /// Allows precisely dropped impact weapons to rest on surfaces until their fuse expires.
    pub floating_weapon_glitch: bool,
    /// RubberWorm physics and utility behavior.
    pub rubberworm: RubberwormOptions,
    /// Lets objects overlapping land pass through it until reaching open space.
    pub terrain_overlap_glitch: TriState,
    /// Counts sudden-death round time in fractions of seconds.
    pub fractional_round_timer: bool,
    /// Triggers retreat time when turn time expires.
    pub auto_retreat: bool,
    /// Chooses which worms are cured of poison when a health crate is collected.
    pub health_crates_cure_poison: HealthCratesCurePoison,
    /// Selects a RubberWorm Kaos utility-crate probability preset.
    pub rw_kaos_mod: u8,
    /// Controls which Sheep Heaven behaviors are enabled.
    pub sheep_heavens_gate: SheepHeavensGate,
    /// Conserves remaining instant utilities for later automatic use.
    pub conserve_instant_utilities: bool,
    /// Consumes instant utilities as soon as they are collected.
    pub expedite_instant_utilities: bool,
    /// Number of times Double Time can be activated in a single turn.
    pub double_time_stack_limit: u8,
}

/// Default value of `ExtendedOptions`.
pub open spec fn extended_options_default() -> ExtendedOptions {
    ExtendedOptions {
        data_version: 0u32,
        constant_wind: false,
        wind: 100i16,
        wind_bias: 0x0Fu8,
        gravity: Fixed(0x3D70),
        terrain_friction: Fixed(0xF5C2),
        rope_knocking: 0xFFu8,
        blood_level: 0xFFu8,
        unrestrict_rope: false,
        auto_place_worms_by_ally: false,
        no_crate_probability: 0xFFu8,
        max_crate_count: 5u16,
        sd_disables_worm_select: true,
        sd_worm_damage_per_turn: 5u8,
        phased_worms_allied: PhasedWorms::Off,
        phased_worms_enemy: PhasedWorms::Off,
        circular_aim: false,
        anti_lock_aim: false,
        anti_lock_power: false,
        worm_select_no_end_hot_seat: false,
        worm_select_never_cancelled: false,
        batty_rope: false,
        rope_roll_drops: RopeRollDrops::Disabled,
        x_impact_loss_of_control: 0u8,
        keep_control_bump_head: false,
        keep_control_skimming: KeepControlAfterSkimming::LoseControl,
        explosion_fall_damage: false,
        explosions_push_all: TriState::Default,
        undetermined_crates: TriState::Default,
        undetermined_fuses: TriState::Default,
        pause_timer_while_firing: true,
        loss_of_control_no_end_turn: false,
        weapon_use_no_end_turn: false,
        weapon_use_no_block: false,
        drill_imparts_velocity: TriState::Default,
        girder_radius_assist: false,
        petrol_turn_decay: 0x3332u16,
        petrol_touch_decay: 0x1Eu8,
        max_flamelet_count: 0xC8u16,
        max_projectile_speed: Fixed(0x20_0000),
        max_rope_speed: Fixed(0x10_0000),
        max_jet_pack_speed: Fixed(0x5_0000),
        game_engine_speed: Fixed(0x1_0000),
        indian_rope_glitch: TriState::Default,
        herd_doubling_glitch: TriState::Default,
        jet_pack_bungee_glitch: true,
        angle_cheat_glitch: true,
        glide_glitch: true,
        skipwalking: Skipwalking::Possible,
        block_roofing: BlockRoofing::Allow,
        floating_weapon_glitch: true,
        rubberworm: rubberworm_options_default(),
        terrain_overlap_glitch: TriState::Default,
        fractional_round_timer: false,
        auto_retreat: false,
        health_crates_cure_poison: HealthCratesCurePoison::CollectingWormTeam,
        rw_kaos_mod: 0u8,
        sheep_heavens_gate: SheepHeavensGate(7),
        conserve_instant_utilities: false,
        expedite_instant_utilities: false,
        double_time_stack_limit: 1u8,
    }
}

impl Default for ExtendedOptions {
    fn default() -> (r: ExtendedOptions)
        ensures
            r == extended_options_default(),
    {
        ExtendedOptions {
            data_version: 0,
            constant_wind: false,
            wind: 100,
            wind_bias: 0x0F,
            gravity: Fixed(0x3D70),
            terrain_friction: Fixed(0xF5C2),
            rope_knocking: 0xFF,
            blood_level: 0xFF,
            unrestrict_rope: false,
            auto_place_worms_by_ally: false,
            no_crate_probability: 0xFF,
            max_crate_count: 5,
            sd_disables_worm_select: true,
            sd_worm_damage_per_turn: 5,
            phased_worms_allied: PhasedWorms::default(),
            phased_worms_enemy: PhasedWorms::default(),
            circular_aim: false,
            anti_lock_aim: false,
            anti_lock_power: false,
            worm_select_no_end_hot_seat: false,
            worm_select_never_cancelled: false,
            batty_rope: false,
            rope_roll_drops: RopeRollDrops::default(),
            x_impact_loss_of_control: 0,
            keep_control_bump_head: false,
            keep_control_skimming: KeepControlAfterSkimming::default(),
            explosion_fall_damage: false,
            explosions_push_all: TriState::default(),
            undetermined_crates: TriState::default(),
            undetermined_fuses: TriState::default(),
            pause_timer_while_firing: true,
            loss_of_control_no_end_turn: false,
            weapon_use_no_end_turn: false,
            weapon_use_no_block: false,
            drill_imparts_velocity: TriState::default(),
            girder_radius_assist: false,
            petrol_turn_decay: 0x3332,
            petrol_touch_decay: 0x1E,
            max_flamelet_count: 0xC8,
            max_projectile_speed: Fixed(0x20_0000),
            max_rope_speed: Fixed(0x10_0000),
            max_jet_pack_speed: Fixed(0x5_0000),
            game_engine_speed: Fixed(0x1_0000),
            indian_rope_glitch: TriState::default(),
            herd_doubling_glitch: TriState::default(),
            jet_pack_bungee_glitch: true,
            angle_cheat_glitch: true,
            glide_glitch: true,
            skipwalking: Skipwalking::default(),
            block_roofing: BlockRoofing::default(),
            floating_weapon_glitch: true,
            rubberworm: RubberwormOptions::default(),
            terrain_overlap_glitch: TriState::default(),
            fractional_round_timer: false,
            auto_retreat: false,
            health_crates_cure_poison: HealthCratesCurePoison::default(),
            rw_kaos_mod: 0,
            sheep_heavens_gate: SheepHeavensGate::default(),
            conserve_instant_utilities: false,
            expedite_instant_utilities: false,
            double_time_stack_limit: 1,
        }
    }
}

/// Field `i` of the layout of `ExtendedOptions`.
pub open spec fn extended_options_layout_at(i: int) -> FieldSpec {
    if i == 0 {
        fs(4u8, false, 0i64, 0i64, 0u8, 0u8, 0u8, 0u8, 0u8, false)
    } else if i == 1 {
        fs(1u8, false, 0i64, 0i64, 2u8, 0u8, 1u8, 0u8, 0u8, false)
    } else if i == 2 {
        fs(2u8, true, -32768i64, 32767i64, 0u8, 0u8, 0u8, 0u8, 0u8, false)
    } else if i == 3 {
        fs(1u8, false, 0i64, 255i64, 0u8, 0u8, 0u8, 0u8, 0u8, false)
    } else if i == 4 {
        fs(4u8, true, 1i64, 13107200i64, 0u8, 0u8, 0u8, 0u8, 0u8, false)
    } else if i == 5 {
        fs(4u8, true, 0i64, 167116i64, 0u8, 0u8, 0u8, 0u8, 0u8, false)
    } else if i == 6 {
        fs(1u8, false, 0i64, 255i64, 0u8, 0u8, 0u8, 0u8, 0u8, false)
    } else if i == 7 {
        fs(1u8, false, 0i64, 255i64, 0u8, 0u8, 0u8, 0u8, 0u8, false)
    } else if i == 8 {
        fs(1u8, false, 0i64, 0i64, 2u8, 0u8, 1u8, 0u8, 0u8, false)
    } else if i == 9 {
        fs(1u8, false, 0i64, 0i64, 2u8, 0u8, 1u8, 0u8, 0u8, false)
    } else if i == 10 {
        fs(1u8, false, 0i64, 255i64, 0u8, 0u8, 0u8, 0u8, 0u8, false)
    } else if i == 11 {
        fs(2u8, false, 0i64, 65535i64, 0u8, 0u8, 0u8, 0u8, 0u8, false)
    } else if i == 12 {
        fs(1u8, false, 0i64, 0i64, 2u8, 0u8, 1u8, 0u8, 0u8, false)
    } else if i == 13 {
        fs(1u8, false, 0i64, 255i64, 0u8, 0u8, 0u8, 0u8, 0u8, false)
    } else if i == 14 {
        fs(1u8, false, 0i64, 0i64, 4u8, 0u8, 1u8, 2u8, 3u8, false)
    } else if i == 15 {
        fs(1u8, false, 0i64, 0i64, 4u8, 0u8, 1u8, 2u8, 3u8, false)
    } else if i == 16 {
        fs(1u8, false, 0i64, 0i64, 2u8, 0u8, 1u8, 0u8, 0u8, false)
    } else if i == 17 {
        fs(1u8, false, 0i64, 0i64, 2u8, 0u8, 1u8, 0u8, 0u8, false)
    } else if i == 18 {
        fs(1u8, false, 0i64, 0i64, 2u8, 0u8, 1u8, 0u8, 0u8, false)
    } else if i == 19 {
        fs(1u8, false, 0i64, 0i64, 2u8, 0u8, 1u8, 0u8, 0u8, false)
    } else if i == 20 {
        fs(1u8, false, 0i64, 0i64, 2u8, 0u8, 1u8, 0u8, 0u8, false)
    } else if i == 21 {
        fs(1u8, false, 0i64, 0i64, 2u8, 0u8, 1u8, 0u8, 0u8, false)
    } else if i == 22 {
        fs(1u8, false, 0i64, 0i64, 3u8, 0u8, 1u8, 2u8, 0u8, false)
    } else if i == 23 {
        fs(1u8, false, 0i64, 0i64, 2u8, 0u8, 0xFFu8, 0u8, 0u8, true)
    } else if i == 24 {
        fs(1u8, false, 0i64, 0i64, 2u8, 0u8, 1u8, 0u8, 0u8, false)
    } else if i == 25 {
        fs(1u8, false, 0i64, 0i64, 3u8, 0u8, 1u8, 2u8, 0u8, false)
    } else if i == 26 {
        fs(1u8, false, 0i64, 0i64, 2u8, 0u8, 1u8, 0u8, 0u8, false)
    } else if i == 27 {
        fs(1u8, false, 0i64, 0i64, 3u8, 0u8, 1u8, 128u8, 0u8, false)
    } else if i == 28 {
        fs(1u8, false, 0i64, 0i64, 3u8, 0u8, 1u8, 128u8, 0u8, false)
    } else if i == 29 {
        fs(1u8, false, 0i64, 0i64, 3u8, 0u8, 1u8, 128u8, 0u8, false)
    } else if i == 30 {
        fs(1u8, false, 0i64, 0i64, 2u8, 0u8, 1u8, 0u8, 0u8, false)
    } else if i == 31 {
        fs(1u8, false, 0i64, 0i64, 2u8, 0u8, 1u8, 0u8, 0u8, false)
    } else if i == 32 {
        fs(1u8, false, 0i64, 0i64, 2u8, 0u8, 1u8, 0u8, 0u8, false)
    } else if i == 33 {
        fs(1u8, false, 0i64, 0i64, 2u8, 0u8, 1u8, 0u8, 0u8, false)
    } else if i == 34 {
        fs(1u8, false, 0i64, 0i64, 3u8, 0u8, 1u8, 128u8, 0u8, false)
    } else if i == 35 {
        fs(1u8, false, 0i64, 0i64, 2u8, 0u8, 1u8, 0u8, 0u8, false)
    } else if i == 36 {
        fs(2u8, false, 0i64, 65535i64, 0u8, 0u8, 0u8, 0u8, 0u8, false)
    } else if i == 37 {
        fs(1u8, false, 1i64, 255i64, 0u8, 0u8, 0u8, 0u8, 0u8, false)
    } else if i == 38 {
        fs(2u8, false, 1i64, 65535i64, 0u8, 0u8, 0u8, 0u8, 0u8, false)
    } else if i == 39 {
        fs(4u8, true, 0i64, 2147483647i64, 0u8, 0u8, 0u8, 0u8, 0u8, false)
    } else if i == 40 {
        fs(4u8, true, 0i64, 2147483647i64, 0u8, 0u8, 0u8, 0u8, 0u8, false)
    } else if i == 41 {
        fs(4u8, true, 0i64, 2147483647i64, 0u8, 0u8, 0u8, 0u8, 0u8, false)
    } else if i == 42 {
        fs(4u8, true, 4096i64, 8388608i64, 0u8, 0u8, 0u8, 0u8, 0u8, false)
    } else if i == 43 {
        fs(1u8, false, 0i64, 0i64, 3u8, 0u8, 1u8, 128u8, 0u8, false)
    } else if i == 44 {
        fs(1u8, false, 0i64, 0i64, 3u8, 0u8, 1u8, 128u8, 0u8, false)
    } else if i == 45 {
        fs(1u8, false, 0i64, 0i64, 2u8, 0u8, 1u8, 0u8, 0u8, false)
    } else if i == 46 {
        fs(1u8, false, 0i64, 0i64, 2u8, 0u8, 1u8, 0u8, 0u8, false)
    } else if i == 47 {
        fs(1u8, false, 0i64, 0i64, 2u8, 0u8, 1u8, 0u8, 0u8, false)
    } else if i == 48 {
        fs(1u8, false, 0i64, 0i64, 3u8, 255u8, 0u8, 1u8, 0u8, false)
    } else if i == 49 {
        fs(1u8, false, 0i64, 0i64, 3u8, 0u8, 1u8, 2u8, 0u8, false)
    } else if i == 50 {
        fs(1u8, false, 0i64, 0i64, 2u8, 0u8, 1u8, 0u8, 0u8, false)
    } else if 51 <= i < 64 {
        rubberworm_options_layout_at(i - 51)
    } else if i == 64 {
        fs(1u8, false, 0i64, 0i64, 3u8, 0u8, 1u8, 128u8, 0u8, false)
    } else if i == 65 {
        fs(1u8, false, 0i64, 0i64, 2u8, 0u8, 1u8, 0u8, 0u8, false)
    } else if i == 66 {
        fs(1u8, false, 0i64, 0i64, 2u8, 0u8, 1u8, 0u8, 0u8, false)
    } else if i == 67 {
        fs(1u8, false, 0i64, 0i64, 4u8, 255u8, 0u8, 1u8, 2u8, false)
    } else if i == 68 {
        fs(1u8, false, 0i64, 5i64, 0u8, 0u8, 0u8, 0u8, 0u8, false)
    } else if i == 69 {
        fs(1u8, false, 1i64, 7i64, 0u8, 0u8, 0u8, 0u8, 0u8, false)
    } else if i == 70 {
        fs(1u8, false, 0i64, 0i64, 2u8, 0u8, 1u8, 0u8, 0u8, false)
    } else if i == 71 {
        fs(1u8, false, 0i64, 0i64, 2u8, 0u8, 1u8, 0u8, 0u8, false)
    } else if i == 72 {
        fs(1u8, false, 0i64, 255i64, 0u8, 0u8, 0u8, 0u8, 0u8, false)
    } else {
        fs(1u8, false, 0i64, 0i64, 0u8, 0u8, 0u8, 0u8, 0u8, false)
    }
}

/// Field layout of `ExtendedOptions`.
pub open spec fn extended_options_layout() -> Seq<FieldSpec> {
    Seq::new(73, |i: int| extended_options_layout_at(i))
}

fn extended_options_layout_field(i: usize) -> (r: FieldSpec)
    requires
        i < 73,
    ensures
        r == extended_options_layout_at(i as int),
{
    if i == 0 {
        mk_field(4u8, false, 0i64, 0i64, 0u8, 0u8, 0u8, 0u8, 0u8, false)
    } else if i == 1 {
        mk_field(1u8, false, 0i64, 0i64, 2u8, 0u8, 1u8, 0u8, 0u8, false)
    } else if i == 2 {
        mk_field(2u8, true, -32768i64, 32767i64, 0u8, 0u8, 0u8, 0u8, 0u8, false)
    } else if i == 3 {
        mk_field(1u8, false, 0i64, 255i64, 0u8, 0u8, 0u8, 0u8, 0u8, false)
    } else if i == 4 {
        mk_field(4u8, true, 1i64, 13107200i64, 0u8, 0u8, 0u8, 0u8, 0u8, false)
    } else if i == 5 {
        mk_field(4u8, true, 0i64, 167116i64, 0u8, 0u8, 0u8, 0u8, 0u8, false)
    } else if i == 6 {
        mk_field(1u8, false, 0i64, 255i64, 0u8, 0u8, 0u8, 0u8, 0u8, false)
    } else if i == 7 {
        mk_field(1u8, false, 0i64, 255i64, 0u8, 0u8, 0u8, 0u8, 0u8, false)
    } else if i == 8 {
        mk_field(1u8, false, 0i64, 0i64, 2u8, 0u8, 1u8, 0u8, 0u8, false)
    } else if i == 9 {
        mk_field(1u8, false, 0i64, 0i64, 2u8, 0u8, 1u8, 0u8, 0u8, false)
    } else if i == 10 {
        mk_field(1u8, false, 0i64, 255i64, 0u8, 0u8, 0u8, 0u8, 0u8, false)
    } else if i == 11 {
        mk_field(2u8, false, 0i64, 65535i64, 0u8, 0u8, 0u8, 0u8, 0u8, false)
    } else if i == 12 {
        mk_field(1u8, false, 0i64, 0i64, 2u8, 0u8, 1u8, 0u8, 0u8, false)
    } else if i == 13 {
        mk_field(1u8, false, 0i64, 255i64, 0u8, 0u8, 0u8, 0u8, 0u8, false)
    } else if i == 14 {
        mk_field(1u8, false, 0i64, 0i64, 4u8, 0u8, 1u8, 2u8, 3u8, false)
    } else if i == 15 {
        mk_field(1u8, false, 0i64, 0i64, 4u8, 0u8, 1u8, 2u8, 3u8, false)
    } else if i == 16 {
        mk_field(1u8, false, 0i64, 0i64, 2u8, 0u8, 1u8, 0u8, 0u8, false)
    } else if i == 17 {
        mk_field(1u8, false, 0i64, 0i64, 2u8, 0u8, 1u8, 0u8, 0u8, false)
    } else if i == 18 {
        mk_field(1u8, false, 0i64, 0i64, 2u8, 0u8, 1u8, 0u8, 0u8, false)
    } else if i == 19 {
        mk_field(1u8, false, 0i64, 0i64, 2u8, 0u8, 1u8, 0u8, 0u8, false)
    } else if i == 20 {
        mk_field(1u8, false, 0i64, 0i64, 2u8, 0u8, 1u8, 0u8, 0u8, false)
    } else if i == 21 {
        mk_field(1u8, false, 0i64, 0i64, 2u8, 0u8, 1u8, 0u8, 0u8, false)
    } else if i == 22 {
        mk_field(1u8, false, 0i64, 0i64, 3u8, 0u8, 1u8, 2u8, 0u8, false)
    } else if i == 23 {
        mk_field(1u8, false, 0i64, 0i64, 2u8, 0u8, 0xFFu8, 0u8, 0u8, true)
    } else if i == 24 {
        mk_field(1u8, false, 0i64, 0i64, 2u8, 0u8, 1u8, 0u8, 0u8, false)
    } else if i == 25 {
        mk_field(1u8, false, 0i64, 0i64, 3u8, 0u8, 1u8, 2u8, 0u8, false)
    } else if i == 26 {
        mk_field(1u8, false, 0i64, 0i64, 2u8, 0u8, 1u8, 0u8, 0u8, false)
    } else if i == 27 {
        mk_field(1u8, false, 0i64, 0i64, 3u8, 0u8, 1u8, 128u8, 0u8, false)
    } else if i == 28 {
        mk_field(1u8, false, 0i64, 0i64, 3u8, 0u8, 1u8, 128u8, 0u8, false)
    } else if i == 29 {
        mk_field(1u8, false, 0i64, 0i64, 3u8, 0u8, 1u8, 128u8, 0u8, false)
    } else if i == 30 {
        mk_field(1u8, false, 0i64, 0i64, 2u8, 0u8, 1u8, 0u8, 0u8, false)
    } else if i == 31 {
        mk_field(1u8, false, 0i64, 0i64, 2u8, 0u8, 1u8, 0u8, 0u8, false)
    } else if i == 32 {
        mk_field(1u8, false, 0i64, 0i64, 2u8, 0u8, 1u8, 0u8, 0u8, false)
    } else if i == 33 {
        mk_field(1u8, false, 0i64, 0i64, 2u8, 0u8, 1u8, 0u8, 0u8, false)
    } else if i == 34 {
        mk_field(1u8, false, 0i64, 0i64, 3u8, 0u8, 1u8, 128u8, 0u8, false)
    } else if i == 35 {
        mk_field(1u8, false, 0i64, 0i64, 2u8, 0u8, 1u8, 0u8, 0u8, false)
    } else if i == 36 {
        mk_field(2u8, false, 0i64, 65535i64, 0u8, 0u8, 0u8, 0u8, 0u8, false)
    } else if i == 37 {
        mk_field(1u8, false, 1i64, 255i64, 0u8, 0u8, 0u8, 0u8, 0u8, false)
    } else if i == 38 {
        mk_field(2u8, false, 1i64, 65535i64, 0u8, 0u8, 0u8, 0u8, 0u8, false)
    } else if i == 39 {
        mk_field(4u8, true, 0i64, 2147483647i64, 0u8, 0u8, 0u8, 0u8, 0u8, false)
    } else if i == 40 {
        mk_field(4u8, true, 0i64, 2147483647i64, 0u8, 0u8, 0u8, 0u8, 0u8, false)
    } else if i == 41 {
        mk_field(4u8, true, 0i64, 2147483647i64, 0u8, 0u8, 0u8, 0u8, 0u8, false)
    } else if i == 42 {
        mk_field(4u8, true, 4096i64, 8388608i64, 0u8, 0u8, 0u8, 0u8, 0u8, false)
    } else if i == 43 {
        mk_field(1u8, false, 0i64, 0i64, 3u8, 0u8, 1u8, 128u8, 0u8, false)
    } else if i == 44 {
        mk_field(1u8, false, 0i64, 0i64, 3u8, 0u8, 1u8, 128u8, 0u8, false)
    } else if i == 45 {
        mk_field(1u8, false, 0i64, 0i64, 2u8, 0u8, 1u8, 0u8, 0u8, false)
    } else if i == 46 {
        mk_field(1u8, false, 0i64, 0i64, 2u8, 0u8, 1u8, 0u8, 0u8, false)
    } else if i == 47 {
        mk_field(1u8, false, 0i64, 0i64, 2u8, 0u8, 1u8, 0u8, 0u8, false)
    } else if i == 48 {
        mk_field(1u8, false, 0i64, 0i64, 3u8, 255u8, 0u8, 1u8, 0u8, false)
    } else if i == 49 {
        mk_field(1u8, false, 0i64, 0i64, 3u8, 0u8, 1u8, 2u8, 0u8, false)
    } else if i == 50 {
        mk_field(1u8, false, 0i64, 0i64, 2u8, 0u8, 1u8, 0u8, 0u8, false)
    } else if 51 <= i && i < 64 {
        rubberworm_options_layout_field(i - 51)
    } else if i == 64 {
        mk_field(1u8, false, 0i64, 0i64, 3u8, 0u8, 1u8, 128u8, 0u8, false)
    } else if i == 65 {
        mk_field(1u8, false, 0i64, 0i64, 2u8, 0u8, 1u8, 0u8, 0u8, false)
    } else if i == 66 {
        mk_field(1u8, false, 0i64, 0i64, 2u8, 0u8, 1u8, 0u8, 0u8, false)
    } else if i == 67 {
        mk_field(1u8, false, 0i64, 0i64, 4u8, 255u8, 0u8, 1u8, 2u8, false)
    } else if i == 68 {
        mk_field(1u8, false, 0i64, 5i64, 0u8, 0u8, 0u8, 0u8, 0u8, false)
    } else if i == 69 {
        mk_field(1u8, false, 1i64, 7i64, 0u8, 0u8, 0u8, 0u8, 0u8, false)
    } else if i == 70 {
        mk_field(1u8, false, 0i64, 0i64, 2u8, 0u8, 1u8, 0u8, 0u8, false)
    } else if i == 71 {
        mk_field(1u8, false, 0i64, 0i64, 2u8, 0u8, 1u8, 0u8, 0u8, false)
    } else if i == 72 {
        mk_field(1u8, false, 0i64, 255i64, 0u8, 0u8, 0u8, 0u8, 0u8, false)
    } else {
        mk_field(1u8, false, 0i64, 0i64, 0u8, 0u8, 0u8, 0u8, 0u8, false)
    }
}

pub fn extended_options_layout_exec() -> (l: Vec<FieldSpec>)
    ensures
        l@ == extended_options_layout(),
{
    let mut l: Vec<FieldSpec> = Vec::new();
    let mut i: usize = 0;
    while i < 73
        invariant
            0 <= i <= 73,
            l@ =~= Seq::new(i as nat, |j: int| extended_options_layout_at(j)),
        decreases 73 - i,
    {
        l.push(extended_options_layout_field(i));
        i = i + 1;
    }
    l
}

/// Raw value of field `i` of `x`, in layout order.
pub open spec fn extended_options_raw_at(x: ExtendedOptions, i: int) -> i64 {
    if i == 0 {
        (x.data_version as i64)
    } else if i == 1 {
        (if x.constant_wind { 1i64 } else { 0i64 })
    } else if i == 2 {
        (x.wind as i64)
    } else if i == 3 {
        (x.wind_bias as i64)
    } else if i == 4 {
        (x.gravity.0 as i64)
    } else if i == 5 {
        (x.terrain_friction.0 as i64)
    } else if i == 6 {
        (x.rope_knocking as i64)
    } else if i == 7 {
        (x.blood_level as i64)
    } else if i == 8 {
        (if x.unrestrict_rope { 1i64 } else { 0i64 })
    } else if i == 9 {
        (if x.auto_place_worms_by_ally { 1i64 } else { 0i64 })
    } else if i == 10 {
        (x.no_crate_probability as i64)
    } else if i == 11 {
        (x.max_crate_count as i64)
    } else if i == 12 {
        (if x.sd_disables_worm_select { 1i64 } else { 0i64 })
    } else if i == 13 {
        (x.sd_worm_damage_per_turn as i64)
    } else if i == 14 {
        (phased_worms_code(x.phased_worms_allied) as i64)
    } else if i == 15 {
        (phased_worms_code(x.phased_worms_enemy) as i64)
    } else if i == 16 {
        (if x.circular_aim { 1i64 } else { 0i64 })
    } else if i == 17 {
        (if x.anti_lock_aim { 1i64 } else { 0i64 })
    } else if i == 18 {
        (if x.anti_lock_power { 1i64 } else { 0i64 })
    } else if i == 19 {
        (if x.worm_select_no_end_hot_seat { 1i64 } else { 0i64 })
    } else if i == 20 {
        (if x.worm_select_never_cancelled { 1i64 } else { 0i64 })
    } else if i == 21 {
        (if x.batty_rope { 1i64 } else { 0i64 })
    } else if i == 22 {
        (rope_roll_drops_code(x.rope_roll_drops) as i64)
    } else if i == 23 {
        (x.x_impact_loss_of_control as i64)
    } else if i == 24 {
        (if x.keep_control_bump_head { 1i64 } else { 0i64 })
    } else if i == 25 {
        (keep_control_after_skimming_code(x.keep_control_skimming) as i64)
    } else if i == 26 {
        (if x.explosion_fall_damage { 1i64 } else { 0i64 })
    } else if i == 27 {
        (tri_state_code(x.explosions_push_all) as i64)
    } else if i == 28 {
        (tri_state_code(x.undetermined_crates) as i64)
    } else if i == 29 {
        (tri_state_code(x.undetermined_fuses) as i64)
    } else if i == 30 {
        (if x.pause_timer_while_firing { 1i64 } else { 0i64 })
    } else if i == 31 {
        (if x.loss_of_control_no_end_turn { 1i64 } else { 0i64 })
    } else if i == 32 {
        (if x.weapon_use_no_end_turn { 1i64 } else { 0i64 })
    } else if i == 33 {
        (if x.weapon_use_no_block { 1i64 } else { 0i64 })
    } else if i == 34 {
        (tri_state_code(x.drill_imparts_velocity) as i64)
    } else if i == 35 {
        (if x.girder_radius_assist { 1i64 } else { 0i64 })
    } else if i == 36 {
        (x.petrol_turn_decay as i64)
    } else if i == 37 {
        (x.petrol_touch_decay as i64)
    } else if i == 38 {
        (x.max_flamelet_count as i64)
    } else if i == 39 {
        (x.max_projectile_speed.0 as i64)
    } else if i == 40 {
        (x.max_rope_speed.0 as i64)
    } else if i == 41 {
        (x.max_jet_pack_speed.0 as i64)
    } else if i == 42 {
        (x.game_engine_speed.0 as i64)
    } else if i == 43 {
        (tri_state_code(x.indian_rope_glitch) as i64)
    } else if i == 44 {
        (tri_state_code(x.herd_doubling_glitch) as i64)
    } else if i == 45 {
        (if x.jet_pack_bungee_glitch { 1i64 } else { 0i64 })
    } else if i == 46 {
        (if x.angle_cheat_glitch { 1i64 } else { 0i64 })
    } else if i == 47 {
        (if x.glide_glitch { 1i64 } else { 0i64 })
    } else if i == 48 {
        (skipwalking_code(x.skipwalking) as i64)
    } else if i == 49 {
        (block_roofing_code(x.block_roofing) as i64)
    } else if i == 50 {
        (if x.floating_weapon_glitch { 1i64 } else { 0i64 })
    } else if 51 <= i < 64 {
        rubberworm_options_raw_at(x.rubberworm, i - 51)
    } else if i == 64 {
        (tri_state_code(x.terrain_overlap_glitch) as i64)
    } else if i == 65 {
        (if x.fractional_round_timer { 1i64 } else { 0i64 })
    } else if i == 66 {
        (if x.auto_retreat { 1i64 } else { 0i64 })
    } else if i == 67 {
        (health_crates_cure_poison_code(x.health_crates_cure_poison) as i64)
    } else if i == 68 {
        (x.rw_kaos_mod as i64)
    } else if i == 69 {
        (x.sheep_heavens_gate.0 as i64)
    } else if i == 70 {
        (if x.conserve_instant_utilities { 1i64 } else { 0i64 })
    } else if i == 71 {
        (if x.expedite_instant_utilities { 1i64 } else { 0i64 })
    } else if i == 72 {
        (x.double_time_stack_limit as i64)
    } else {
        0
    }
}

/// Raw field values of `x`, in layout order.
pub open spec fn extended_options_to_raw(x: ExtendedOptions) -> Seq<i64> {
    Seq::new(73, |i: int| extended_options_raw_at(x, i))
}

fn extended_options_raw_value(x: &ExtendedOptions, i: usize) -> (r: i64)
    requires
        i < 73,
    ensures
        r == extended_options_raw_at(*x, i as int),
{
    if i == 0 {
        x.data_version as i64
    } else if i == 1 {
        if x.constant_wind { 1i64 } else { 0i64 }
    } else if i == 2 {
        x.wind as i64
    } else if i == 3 {
        x.wind_bias as i64
    } else if i == 4 {
        x.gravity.0 as i64
    } else if i == 5 {
        x.terrain_friction.0 as i64
    } else if i == 6 {
        x.rope_knocking as i64
    } else if i == 7 {
        x.blood_level as i64
    } else if i == 8 {
        if x.unrestrict_rope { 1i64 } else { 0i64 }
    } else if i == 9 {
        if x.auto_place_worms_by_ally { 1i64 } else { 0i64 }
    } else if i == 10 {
        x.no_crate_probability as i64
    } else if i == 11 {
        x.max_crate_count as i64
    } else if i == 12 {
        if x.sd_disables_worm_select { 1i64 } else { 0i64 }
    } else if i == 13 {
        x.sd_worm_damage_per_turn as i64
    } else if i == 14 {
        x.phased_worms_allied.code() as i64
    } else if i == 15 {
        x.phased_worms_enemy.code() as i64
    } else if i == 16 {
        if x.circular_aim { 1i64 } else { 0i64 }
    } else if i == 17 {
        if x.anti_lock_aim { 1i64 } else { 0i64 }
    } else if i == 18 {
        if x.anti_lock_power { 1i64 } else { 0i64 }
    } else if i == 19 {
        if x.worm_select_no_end_hot_seat { 1i64 } else { 0i64 }
    } else if i == 20 {
        if x.worm_select_never_cancelled { 1i64 } else { 0i64 }
    } else if i == 21 {
        if x.batty_rope { 1i64 } else { 0i64 }
    } else if i == 22 {
        x.rope_roll_drops.code() as i64
    } else if i == 23 {
        x.x_impact_loss_of_control as i64
    } else if i == 24 {
        if x.keep_control_bump_head { 1i64 } else { 0i64 }
    } else if i == 25 {
        x.keep_control_skimming.code() as i64
    } else if i == 26 {
        if x.explosion_fall_damage { 1i64 } else { 0i64 }
    } else if i == 27 {
        x.explosions_push_all.code() as i64
    } else if i == 28 {
        x.undetermined_crates.code() as i64
    } else if i == 29 {
        x.undetermined_fuses.code() as i64
    } else if i == 30 {
        if x.pause_timer_while_firing { 1i64 } else { 0i64 }
    } else if i == 31 {
        if x.loss_of_control_no_end_turn { 1i64 } else { 0i64 }
    } else if i == 32 {
        if x.weapon_use_no_end_turn { 1i64 } else { 0i64 }
    } else if i == 33 {
        if x.weapon_use_no_block { 1i64 } else { 0i64 }
    } else if i == 34 {
        x.drill_imparts_velocity.code() as i64
    } else if i == 35 {
        if x.girder_radius_assist { 1i64 } else { 0i64 }
    } else if i == 36 {
        x.petrol_turn_decay as i64
    } else if i == 37 {
        x.petrol_touch_decay as i64
    } else if i == 38 {
        x.max_flamelet_count as i64
    } else if i == 39 {
        x.max_projectile_speed.0 as i64
    } else if i == 40 {
        x.max_rope_speed.0 as i64
    } else if i == 41 {
        x.max_jet_pack_speed.0 as i64
    } else if i == 42 {
        x.game_engine_speed.0 as i64
    } else if i == 43 {
        x.indian_rope_glitch.code() as i64
    } else if i == 44 {
        x.herd_doubling_glitch.code() as i64
    } else if i == 45 {
        if x.jet_pack_bungee_glitch { 1i64 } else { 0i64 }
    } else if i == 46 {
        if x.angle_cheat_glitch { 1i64 } else { 0i64 }
    } else if i == 47 {
        if x.glide_glitch { 1i64 } else { 0i64 }
    } else if i == 48 {
        x.skipwalking.code() as i64
    } else if i == 49 {
        x.block_roofing.code() as i64
    } else if i == 50 {
        if x.floating_weapon_glitch { 1i64 } else { 0i64 }
    } else if 51 <= i && i < 64 {
        rubberworm_options_raw_value(&x.rubberworm, i - 51)
    } else if i == 64 {
        x.terrain_overlap_glitch.code() as i64
    } else if i == 65 {
        if x.fractional_round_timer { 1i64 } else { 0i64 }
    } else if i == 66 {
        if x.auto_retreat { 1i64 } else { 0i64 }
    } else if i == 67 {
        x.health_crates_cure_poison.code() as i64
    } else if i == 68 {
        x.rw_kaos_mod as i64
    } else if i == 69 {
        x.sheep_heavens_gate.0 as i64
    } else if i == 70 {
        if x.conserve_instant_utilities { 1i64 } else { 0i64 }
    } else if i == 71 {
        if x.expedite_instant_utilities { 1i64 } else { 0i64 }
    } else if i == 72 {
        x.double_time_stack_limit as i64
    } else {
        0
    }
}

pub fn extended_options_push_vals(x: &ExtendedOptions, out: &mut Vec<i64>)
    ensures
        final(out)@ == old(out)@ + extended_options_to_raw(*x),
{
    let ghost start = out@;
    let mut i: usize = 0;
    while i < 73
        invariant
            0 <= i <= 73,
            out@ =~= start + Seq::new(i as nat, |j: int| extended_options_raw_at(*x, j)),
        decreases 73 - i,
    {
        out.push(extended_options_raw_value(x, i));
        i = i + 1;
    }
    assert(out@ =~= start + extended_options_to_raw(*x));
}

/// The `ExtendedOptions` with the raw field values `s`, in layout order.
pub open spec fn extended_options_from_raw(s: Seq<i64>) -> ExtendedOptions {
    ExtendedOptions {
        data_version: s[0] as u32,
        constant_wind: s[1] == 1,
        wind: s[2] as i16,
        wind_bias: s[3] as u8,
        gravity: Fixed(s[4] as i32),
        terrain_friction: Fixed(s[5] as i32),
        rope_knocking: s[6] as u8,
        blood_level: s[7] as u8,
        unrestrict_rope: s[8] == 1,
        auto_place_worms_by_ally: s[9] == 1,
        no_crate_probability: s[10] as u8,
        max_crate_count: s[11] as u16,
        sd_disables_worm_select: s[12] == 1,
        sd_worm_damage_per_turn: s[13] as u8,
        phased_worms_allied: phased_worms_of_code(s[14] as u8),
        phased_worms_enemy: phased_worms_of_code(s[15] as u8),
        circular_aim: s[16] == 1,
        anti_lock_aim: s[17] == 1,
        anti_lock_power: s[18] == 1,
        worm_select_no_end_hot_seat: s[19] == 1,
        worm_select_never_cancelled: s[20] == 1,
        batty_rope: s[21] == 1,
        rope_roll_drops: rope_roll_drops_of_code(s[22] as u8),
        x_impact_loss_of_control: s[23] as u8,
        keep_control_bump_head: s[24] == 1,
        keep_control_skimming: keep_control_after_skimming_of_code(s[25] as u8),
        explosion_fall_damage: s[26] == 1,
        explosions_push_all: tri_state_of_code(s[27] as u8),
        undetermined_crates: tri_state_of_code(s[28] as u8),
        undetermined_fuses: tri_state_of_code(s[29] as u8),
        pause_timer_while_firing: s[30] == 1,
        loss_of_control_no_end_turn: s[31] == 1,
        weapon_use_no_end_turn: s[32] == 1,
        weapon_use_no_block: s[33] == 1,
        drill_imparts_velocity: tri_state_of_code(s[34] as u8),
        girder_radius_assist: s[35] == 1,
        petrol_turn_decay: s[36] as u16,
        petrol_touch_decay: s[37] as u8,
        max_flamelet_count: s[38] as u16,
        max_projectile_speed: Fixed(s[39] as i32),
        max_rope_speed: Fixed(s[40] as i32),
        max_jet_pack_speed: Fixed(s[41] as i32),
        game_engine_speed: Fixed(s[42] as i32),
        indian_rope_glitch: tri_state_of_code(s[43] as u8),
        herd_doubling_glitch: tri_state_of_code(s[44] as u8),
        jet_pack_bungee_glitch: s[45] == 1,
        angle_cheat_glitch: s[46] == 1,
        glide_glitch: s[47] == 1,
        skipwalking: skipwalking_of_code(s[48] as u8),
        block_roofing: block_roofing_of_code(s[49] as u8),
        floating_weapon_glitch: s[50] == 1,
        rubberworm: rubberworm_options_from_raw(s.subrange(51, 64)),
        terrain_overlap_glitch: tri_state_of_code(s[64] as u8),
        fractional_round_timer: s[65] == 1,
        auto_retreat: s[66] == 1,
        health_crates_cure_poison: health_crates_cure_poison_of_code(s[67] as u8),
        rw_kaos_mod: s[68] as u8,
        sheep_heavens_gate: SheepHeavensGate(s[69] as u8),
        conserve_instant_utilities: s[70] == 1,
        expedite_instant_utilities: s[71] == 1,
        double_time_stack_limit: s[72] as u8,
    }
}

#[verifier::rlimit(80)]
pub fn extended_options_from_vals(v: &Vec<i64>, b: usize) -> (r: ExtendedOptions)
    requires
        b + 73 <= v@.len(),
        vals_ok(extended_options_layout(), v@.subrange(b as int, b + 73)),
    ensures
        r == extended_options_from_raw(v@.subrange(b as int, b + 73)),
{
    let n: usize = v.len();
    let ghost sub = v@.subrange(b as int, b + 73);
    proof {
        assert(field_error(extended_options_layout()[14], sub[14] as int) is None);
        assert(field_error(extended_options_layout()[15], sub[15] as int) is None);
        assert(field_error(extended_options_layout()[22], sub[22] as int) is None);
        assert(field_error(extended_options_layout()[25], sub[25] as int) is None);
        assert(field_error(extended_options_layout()[27], sub[27] as int) is None);
        assert(field_error(extended_options_layout()[28], sub[28] as int) is None);
        assert(field_error(extended_options_layout()[29], sub[29] as int) is None);
        assert(field_error(extended_options_layout()[34], sub[34] as int) is None);
        assert(field_error(extended_options_layout()[43], sub[43] as int) is None);
        assert(field_error(extended_options_layout()[44], sub[44] as int) is None);
        assert(field_error(extended_options_layout()[48], sub[48] as int) is None);
        assert(field_error(extended_options_layout()[49], sub[49] as int) is None);
        assert(v@.subrange((b + 51) as int, b + 64) =~= sub.subrange(51, 64));
        assert(vals_ok(rubberworm_options_layout(), sub.subrange(51, 64))) by {
            assert forall|i: int| 0 <= i < 13 implies in_width(rubberworm_options_layout()[i], #[trigger] sub.subrange(51, 64)[i] as int) && field_error(rubberworm_options_layout()[i], sub.subrange(51, 64)[i] as int) is None by {
                assert(sub[51 + i] == sub.subrange(51, 64)[i]);
                assert(extended_options_layout()[51 + i] == rubberworm_options_layout()[i]);
            }
        }
        assert(field_error(extended_options_layout()[64], sub[64] as int) is None);
        assert(field_error(extended_options_layout()[67], sub[67] as int) is None);
    }
    ExtendedOptions {
        data_version: v[b + 0] as u32,
        constant_wind: v[b + 1] == 1,
        wind: v[b + 2] as i16,
        wind_bias: v[b + 3] as u8,
        gravity: Fixed(v[b + 4] as i32),
        terrain_friction: Fixed(v[b + 5] as i32),
        rope_knocking: v[b + 6] as u8,
        blood_level: v[b + 7] as u8,
        unrestrict_rope: v[b + 8] == 1,
        auto_place_worms_by_ally: v[b + 9] == 1,
        no_crate_probability: v[b + 10] as u8,
        max_crate_count: v[b + 11] as u16,
        sd_disables_worm_select: v[b + 12] == 1,
        sd_worm_damage_per_turn: v[b + 13] as u8,
        phased_worms_allied: PhasedWorms::from_code(v[b + 14] as u8),
        phased_worms_enemy: PhasedWorms::from_code(v[b + 15] as u8),
        circular_aim: v[b + 16] == 1,
        anti_lock_aim: v[b + 17] == 1,
        anti_lock_power: v[b + 18] == 1,
        worm_select_no_end_hot_seat: v[b + 19] == 1,
        worm_select_never_cancelled: v[b + 20] == 1,
        batty_rope: v[b + 21] == 1,
        rope_roll_drops: RopeRollDrops::from_code(v[b + 22] as u8),
        x_impact_loss_of_control: v[b + 23] as u8,
        keep_control_bump_head: v[b + 24] == 1,
        keep_control_skimming: KeepControlAfterSkimming::from_code(v[b + 25] as u8),
        explosion_fall_damage: v[b + 26] == 1,
        explosions_push_all: TriState::from_code(v[b + 27] as u8),
        undetermined_crates: TriState::from_code(v[b + 28] as u8),
        undetermined_fuses: TriState::from_code(v[b + 29] as u8),
        pause_timer_while_firing: v[b + 30] == 1,
        loss_of_control_no_end_turn: v[b + 31] == 1,
        weapon_use_no_end_turn: v[b + 32] == 1,
        weapon_use_no_block: v[b + 33] == 1,
        drill_imparts_velocity: TriState::from_code(v[b + 34] as u8),
        girder_radius_assist: v[b + 35] == 1,
        petrol_turn_decay: v[b + 36] as u16,
        petrol_touch_decay: v[b + 37] as u8,
        max_flamelet_count: v[b + 38] as u16,
        max_projectile_speed: Fixed(v[b + 39] as i32),
        max_rope_speed: Fixed(v[b + 40] as i32),
        max_jet_pack_speed: Fixed(v[b + 41] as i32),
        game_engine_speed: Fixed(v[b + 42] as i32),
        indian_rope_glitch: TriState::from_code(v[b + 43] as u8),
        herd_doubling_glitch: TriState::from_code(v[b + 44] as u8),
        jet_pack_bungee_glitch: v[b + 45] == 1,
        angle_cheat_glitch: v[b + 46] == 1,
        glide_glitch: v[b + 47] == 1,
        skipwalking: Skipwalking::from_code(v[b + 48] as u8),
        block_roofing: BlockRoofing::from_code(v[b + 49] as u8),
        floating_weapon_glitch: v[b + 50] == 1,
        rubberworm: rubberworm_options_from_vals(v, b + 51),
        terrain_overlap_glitch: TriState::from_code(v[b + 64] as u8),
        fractional_round_timer: v[b + 65] == 1,
        auto_retreat: v[b + 66] == 1,
        health_crates_cure_poison: HealthCratesCurePoison::from_code(v[b + 67] as u8),
        rw_kaos_mod: v[b + 68] as u8,
        sheep_heavens_gate: SheepHeavensGate(v[b + 69] as u8),
        conserve_instant_utilities: v[b + 70] == 1,
        expedite_instant_utilities: v[b + 71] == 1,
        double_time_stack_limit: v[b + 72] as u8,
    }
}

/// Reading back the raw values of `x` gives `x`.
pub proof fn lemma_extended_options_raw_roundtrip(x: ExtendedOptions)
    ensures
        extended_options_to_raw(x).len() == 73,
        extended_options_from_raw(extended_options_to_raw(x)) == x,
{
    let s = extended_options_to_raw(x);
    assert(phased_worms_of_code(phased_worms_code(x.phased_worms_allied)) == x.phased_worms_allied);
    assert(phased_worms_of_code(phased_worms_code(x.phased_worms_enemy)) == x.phased_worms_enemy);
    assert(rope_roll_drops_of_code(rope_roll_drops_code(x.rope_roll_drops)) == x.rope_roll_drops);
    assert(keep_control_after_skimming_of_code(keep_control_after_skimming_code(x.keep_control_skimming)) == x.keep_control_skimming);
    assert(tri_state_of_code(tri_state_code(x.explosions_push_all)) == x.explosions_push_all);
    assert(tri_state_of_code(tri_state_code(x.undetermined_crates)) == x.undetermined_crates);
    assert(tri_state_of_code(tri_state_code(x.undetermined_fuses)) == x.undetermined_fuses);
    assert(tri_state_of_code(tri_state_code(x.drill_imparts_velocity)) == x.drill_imparts_velocity);
    assert(tri_state_of_code(tri_state_code(x.indian_rope_glitch)) == x.indian_rope_glitch);
    assert(tri_state_of_code(tri_state_code(x.herd_doubling_glitch)) == x.herd_doubling_glitch);
    assert(skipwalking_of_code(skipwalking_code(x.skipwalking)) == x.skipwalking);
    assert(block_roofing_of_code(block_roofing_code(x.block_roofing)) == x.block_roofing);
    lemma_rubberworm_options_raw_roundtrip(x.rubberworm);
    assert(s.subrange(51, 64) =~= rubberworm_options_to_raw(x.rubberworm));
    assert(tri_state_of_code(tri_state_code(x.terrain_overlap_glitch)) == x.terrain_overlap_glitch);
    assert(health_crates_cure_poison_of_code(health_crates_cure_poison_code(x.health_crates_cure_poison)) == x.health_crates_cure_poison);
}

/// The raw values of the `ExtendedOptions` read from valid raw values are those values.
#[verifier::rlimit(80)]
pub proof fn lemma_extended_options_raw_canonical(s: Seq<i64>)
    requires
        vals_ok(extended_options_layout(), s),
    ensures
        extended_options_to_raw(extended_options_from_raw(s)) == s,
{
    let x = extended_options_from_raw(s);
    assert(vals_ok(rubberworm_options_layout(), s.subrange(51, 64))) by {
        assert forall|i: int| 0 <= i < 13 implies in_width(rubberworm_options_layout()[i], #[trigger] s.subrange(51, 64)[i] as int) && field_error(rubberworm_options_layout()[i], s.subrange(51, 64)[i] as int) is None by {
            assert(s[51 + i] == s.subrange(51, 64)[i]);
            assert(extended_options_layout()[51 + i] == rubberworm_options_layout()[i]);
        }
    }
    lemma_rubberworm_options_raw_canonical(s.subrange(51, 64));
    assert forall|i: int| 0 <= i < 8 implies #[trigger] extended_options_raw_at(x, i) == s[i] by {
        assert(in_width(extended_options_layout()[i], s[i] as int) && field_error(extended_options_layout()[i], s[i] as int) is None);
    }
    assert forall|i: int| 8 <= i < 16 implies #[trigger] extended_options_raw_at(x, i) == s[i] by {
        assert(in_width(extended_options_layout()[i], s[i] as int) && field_error(extended_options_layout()[i], s[i] as int) is None);
    }
    assert forall|i: int| 16 <= i < 24 implies #[trigger] extended_options_raw_at(x, i) == s[i] by {
        assert(in_width(extended_options_layout()[i], s[i] as int) && field_error(extended_options_layout()[i], s[i] as int) is None);
    }
    assert forall|i: int| 24 <= i < 32 implies #[trigger] extended_options_raw_at(x, i) == s[i] by {
        assert(in_width(extended_options_layout()[i], s[i] as int) && field_error(extended_options_layout()[i], s[i] as int) is None);
    }
    assert forall|i: int| 32 <= i < 40 implies #[trigger] extended_options_raw_at(x, i) == s[i] by {
        assert(in_width(extended_options_layout()[i], s[i] as int) && field_error(extended_options_layout()[i], s[i] as int) is None);
    }
    assert forall|i: int| 40 <= i < 48 implies #[trigger] extended_options_raw_at(x, i) == s[i] by {
        assert(in_width(extended_options_layout()[i], s[i] as int) && field_error(extended_options_layout()[i], s[i] as int) is None);
    }
    assert forall|i: int| 48 <= i < 51 implies #[trigger] extended_options_raw_at(x, i) == s[i] by {
        assert(in_width(extended_options_layout()[i], s[i] as int) && field_error(extended_options_layout()[i], s[i] as int) is None);
    }
    assert forall|i: int| 51 <= i < 64 implies #[trigger] extended_options_raw_at(x, i) == s[i] by {
        assert(in_width(extended_options_layout()[i], s[i] as int) && field_error(extended_options_layout()[i], s[i] as int) is None);
        assert(rubberworm_options_to_raw(x.rubberworm)[i - 51] == s.subrange(51, 64)[i - 51]);
    }
    assert forall|i: int| 64 <= i < 72 implies #[trigger] extended_options_raw_at(x, i) == s[i] by {
        assert(in_width(extended_options_layout()[i], s[i] as int) && field_error(extended_options_layout()[i], s[i] as int) is None);
    }
    assert forall|i: int| 72 <= i < 73 implies #[trigger] extended_options_raw_at(x, i) == s[i] by {
        assert(in_width(extended_options_layout()[i], s[i] as int) && field_error(extended_options_layout()[i], s[i] as int) is None);
    }
    assert(extended_options_to_raw(x) =~= s);
}

pub proof fn lemma_extended_options_layout_ok()
    ensures
        layout_ok(extended_options_layout()),
        extended_options_layout().len() == 73,
{
    assert forall|i: int| 0 <= i < extended_options_layout().len() implies width_ok(#[trigger] extended_options_layout()[i]) by {
        if 51 <= i < 64 {
            lemma_rubberworm_options_layout_ok();
            assert(width_ok(rubberworm_options_layout()[i - 51]));
        }
    }
}

/// Weapon ammunition stored in a scheme file: a count from 0 to 9, or
/// unlimited.
#[derive(Debug, Clone, Copy, PartialEq, Eq, Structural)]
pub enum Ammunition {
    Finite(u8),
    Infinite,
}

/// Largest finite ammunition count; stored counts above it mean unlimited
/// ammunition, which is written as one more than it.
pub const AMMO_MAX_FINITE: u8 = 9;

impl Ammunition {
    /// A finite ammunition count, if `value` is at most 9.
    pub fn finite(value: u8) -> (r: Option<Ammunition>)
        ensures
            r == (if value <= AMMO_MAX_FINITE {
                Some(Ammunition::Finite(value))
            } else {
                None
            }),
    {
        if value <= AMMO_MAX_FINITE {
            Some(Ammunition::Finite(value))
        } else {
            None
        }
    }
}

impl Default for Ammunition {
    fn default() -> (r: Ammunition)
        ensures
            r == Ammunition::Finite(0),
    {
        Ammunition::Finite(0)
    }
}

/// The ammunition can be written: finite counts must be at most 9.
pub open spec fn ammo_ok(a: Ammunition) -> bool {
    match a {
        Ammunition::Finite(v) => v <= AMMO_MAX_FINITE,
        Ammunition::Infinite => true,
    }
}

/// The byte that stores the ammunition.
pub open spec fn ammo_byte(a: Ammunition) -> u8 {
    match a {
        Ammunition::Finite(v) => v,
        Ammunition::Infinite => 10,
    }
}

/// The ammunition that byte `b` stores.
pub open spec fn ammo_of_byte(b: u8) -> Ammunition {
    if b <= AMMO_MAX_FINITE {
        Ammunition::Finite(b)
    } else {
        Ammunition::Infinite
    }
}

/// Settings stored for each weapon. Weapons are stored in the order of the
/// game's scheme editor, which differs from the weapon identifiers.
#[derive(Debug, Clone, Copy, PartialEq, Eq, Structural)]
pub struct WeaponSettings {
    /// Ammunition count; stored values above 9 mean unlimited ammunition.
    pub ammo: Ammunition,
    /// Weapon strength. The effect varies by weapon; for Jet Pack, this sets fuel.
    pub power: u8,
    /// Turns before the weapon becomes available; 0x80 through 0xFF blocks it indefinitely.
    pub delay: u8,
    /// Chance of the weapon appearing in a crate.
    pub crate_probability: u8,
}

/// Default weapon settings: no ammunition, everything zero.
pub open spec fn weapon_settings_default() -> WeaponSettings {
    WeaponSettings { ammo: Ammunition::Finite(0), power: 0, delay: 0, crate_probability: 0 }
}

impl Default for WeaponSettings {
    fn default() -> (r: WeaponSettings)
        ensures
            r == weapon_settings_default(),
    {
        WeaponSettings { ammo: Ammunition::Finite(0), power: 0, delay: 0, crate_probability: 0 }
    }
}

/// The four bytes that store the settings.
pub open spec fn ws_bytes(w: WeaponSettings) -> Seq<u8> {
    seq![ammo_byte(w.ammo), w.power, w.delay, w.crate_probability]
}

/// The settings stored at `off` in `b`.
pub open spec fn ws_from(b: Seq<u8>, off: int) -> WeaponSettings {
    WeaponSettings {
        ammo: ammo_of_byte(b[off]),
        power: b[off + 1],
        delay: b[off + 2],
        crate_probability: b[off + 3],
    }
}

/// The bytes of a list of settings, four per entry.
pub open spec fn settings_bytes(l: Seq<WeaponSettings>) -> Seq<u8>
    decreases l.len(),
{
    if l.len() == 0 {
        Seq::empty()
    } else {
        ws_bytes(l[0]) + settings_bytes(l.drop_first())
    }
}

/// The `n` settings stored from `off` in `b`.
pub open spec fn settings_from(b: Seq<u8>, off: int, n: nat) -> Seq<WeaponSettings> {
    Seq::new(n, |j: int| ws_from(b, off + 4 * j))
}

/// Every entry's ammunition can be written.
pub open spec fn settings_ok(l: Seq<WeaponSettings>) -> bool {
    forall|j: int| 0 <= j < l.len() ==> ammo_ok(#[trigger] l[j].ammo)
}

pub proof fn lemma_settings_bytes_index(l: Seq<WeaponSettings>)
    ensures
        settings_bytes(l).len() == 4 * l.len(),
        forall|j: int, k: int|
            0 <= j < l.len() && 0 <= k < 4 ==> #[trigger] settings_bytes(l)[4 * j + k] == ws_bytes(
                l[j],
            )[k],
    decreases l.len(),
{
    if l.len() > 0 {
        let rest = l.drop_first();
        lemma_settings_bytes_index(rest);
        assert forall|j: int, k: int| 0 <= j < l.len() && 0 <= k < 4 implies #[trigger] settings_bytes(
            l,
        )[4 * j + k] == ws_bytes(l[j])[k] by {
            if j > 0 {
                assert(rest[j - 1] == l[j]);
                assert(settings_bytes(rest)[4 * (j - 1) + k] == ws_bytes(rest[j - 1])[k]);
            }
        }
    }
}

proof fn lemma_settings_bytes_push(l: Seq<WeaponSettings>, w: WeaponSettings)
    ensures
        settings_bytes(l.push(w)) == settings_bytes(l) + ws_bytes(w),
    decreases l.len(),
{
    if l.len() == 0 {
        let e = Seq::<WeaponSettings>::empty();
        assert(l.push(w).drop_first() =~= e);
        assert(settings_bytes(e) == Seq::<u8>::empty());
        assert(settings_bytes(l.push(w)) == ws_bytes(w) + settings_bytes(e));
        assert(settings_bytes(l.push(w)) =~= ws_bytes(w));
        assert(settings_bytes(l) == Seq::<u8>::empty());
    } else {
        assert(l.push(w).drop_first() =~= l.drop_first().push(w));
        lemma_settings_bytes_push(l.drop_first(), w);
        assert(settings_bytes(l.push(w)) =~= settings_bytes(l) + ws_bytes(w));
    }
}

/// Reading back the bytes of writable settings gives the settings,
/// whatever surrounds them.
pub proof fn lemma_settings_roundtrip(l: Seq<WeaponSettings>, pre: Seq<u8>, post: Seq<u8>)
    requires
        settings_ok(l),
    ensures
        settings_bytes(l).len() == 4 * l.len(),
        settings_from(pre + settings_bytes(l) + post, pre.len() as int, l.len()) == l,
{
    lemma_settings_bytes_index(l);
    let b = pre + settings_bytes(l) + post;
    let o = pre.len() as int;
    assert forall|j: int| 0 <= j < l.len() implies #[trigger] settings_from(b, o, l.len())[j]
        == l[j] by {
        assert(b[o + 4 * j] == settings_bytes(l)[4 * j + 0]);
        assert(b[o + 4 * j + 1] == settings_bytes(l)[4 * j + 1]);
        assert(b[o + 4 * j + 2] == settings_bytes(l)[4 * j + 2]);
        assert(b[o + 4 * j + 3] == settings_bytes(l)[4 * j + 3]);
        assert(ammo_ok(l[j].ammo));
    }
    assert(settings_from(b, o, l.len()) =~= l);
}

/// Settings read from bytes can always be written.
pub proof fn lemma_settings_from_ok(b: Seq<u8>, off: int, n: nat)
    ensures
        settings_ok(settings_from(b, off, n)),
{
}

fn ws_read(b: &[u8], off: usize) -> (r: WeaponSettings)
    requires
        off + 4 <= b@.len(),
    ensures
        r == ws_from(b@, off as int),
{
    let a: u8 = b[off];
    WeaponSettings {
        ammo: if a <= AMMO_MAX_FINITE {
            Ammunition::Finite(a)
        } else {
            Ammunition::Infinite
        },
        power: b[off + 1],
        delay: b[off + 2],
        crate_probability: b[off + 3],
    }
}

fn ws_push(w: &WeaponSettings, out: &mut Vec<u8>)
    ensures
        final(out)@ == old(out)@ + ws_bytes(*w),
{
    let ghost start = out@;
    let a: u8 = match w.ammo {
        Ammunition::Finite(v) => v,
        Ammunition::Infinite => 10,
    };
    out.push(a);
    out.push(w.power);
    out.push(w.delay);
    out.push(w.crate_probability);
    assert(out@ =~= start + ws_bytes(*w));
}

fn read_settings(b: &[u8], off: usize, n: usize) -> (r: Vec<WeaponSettings>)
    requires
        off + 4 * n <= b@.len(),
    ensures
        r@ == settings_from(b@, off as int, n as nat),
{
    let mut v: Vec<WeaponSettings> = Vec::new();
    let mut j: usize = 0;
    let bl: usize = b.len();
    while j < n
        invariant
            0 <= j <= n,
            bl == b@.len(),
            off + 4 * n <= b@.len(),
            v@ =~= settings_from(b@, off as int, j as nat),
        decreases n - j,
    {
        v.push(ws_read(b, off + 4 * j));
        j = j + 1;
    }
    v
}

fn write_settings(l: &Vec<WeaponSettings>, out: &mut Vec<u8>)
    ensures
        final(out)@ == old(out)@ + settings_bytes(l@),
{
    let ghost start = out@;
    let mut j: usize = 0;
    proof {
        assert(l@.take(0) =~= Seq::<WeaponSettings>::empty());
    }
    while j < l.len()
        invariant
            0 <= j <= l@.len(),
            out@ == start + settings_bytes(l@.take(j as int)),
        decreases l@.len() - j,
    {
        ws_push(&l[j], out);
        proof {
            assert(l@.take(j + 1) =~= l@.take(j as int).push(l@[j as int]));
            lemma_settings_bytes_push(l@.take(j as int), l@[j as int]);
        }
        j = j + 1;
    }
    proof {
        assert(l@.take(j as int) =~= l@);
    }
}

fn settings_all_ok(l: &Vec<WeaponSettings>) -> (r: bool)
    ensures
        r == settings_ok(l@),
{
    let mut j: usize = 0;
    while j < l.len()
        invariant
            0 <= j <= l@.len(),
            forall|i: int| 0 <= i < j ==> ammo_ok(#[trigger] l@[i].ammo),
        decreases l@.len() - j,
    {
        match l[j].ammo {
            Ammunition::Finite(v) => {
                if v > AMMO_MAX_FINITE {
                    assert(!ammo_ok(l@[j as int].ammo));
                    return false;
                }
            },
            Ammunition::Infinite => {},
        }
        j = j + 1;
    }
    true
}

impl WeaponSettings {
    /// The settings stored in exactly four bytes.
    pub fn try_from(b: &[u8]) -> (r: Result<WeaponSettings, LayoutError>)
        ensures
            r == (if b@.len() < 4 {
                Err(LayoutError::Incomplete)
            } else if b@.len() > 4 {
                Err(LayoutError::Parse)
            } else {
                Ok(ws_from(b@, 0))
            }),
    {
        if b.len() < 4 {
            Err(LayoutError::Incomplete)
        } else if b.len() > 4 {
            Err(LayoutError::Parse)
        } else {
            Ok(ws_read(b, 0))
        }
    }

    /// The four bytes of the settings; a finite ammunition count above 9
    /// cannot be written.
    pub fn to_bytes(&self) -> (r: Result<Vec<u8>, LayoutError>)
        ensures
            match r {
                Ok(v) => ammo_ok(self.ammo) && v@ == ws_bytes(*self),
                Err(e) => !ammo_ok(self.ammo) && e == LayoutError::Parse,
            },
    {
        match self.ammo {
            Ammunition::Finite(v) => {
                if v > AMMO_MAX_FINITE {
                    return Err(LayoutError::Parse);
                }
            },
            Ammunition::Infinite => {},
        }
        let mut out: Vec<u8> = Vec::new();
        ws_push(self, &mut out);
        assert(out@ =~= ws_bytes(*self));
        Ok(out)
    }
}

/// Standard weapon settings present in every scheme version.
#[derive(Debug, Clone, Copy, PartialEq, Eq, Structural)]
pub struct StandardWeapons {
    pub bazooka: WeaponSettings,
    pub homing_missile: WeaponSettings,
    pub mortar: WeaponSettings,
    pub grenade: WeaponSettings,
    pub cluster_bomb: WeaponSettings,
    pub skunk: WeaponSettings,
    pub petrol_bomb: WeaponSettings,
    pub banana_bomb: WeaponSettings,
    pub handgun: WeaponSettings,
    pub shotgun: WeaponSettings,
    pub uzi: WeaponSettings,
    pub minigun: WeaponSettings,
    pub longbow: WeaponSettings,
    pub airstrike: WeaponSettings,
    pub napalm_strike: WeaponSettings,
    pub mine: WeaponSettings,
    pub fire_punch: WeaponSettings,
    pub dragon_ball: WeaponSettings,
    pub kamikaze: WeaponSettings,
    pub prod: WeaponSettings,
    pub battle_axe: WeaponSettings,
    pub blowtorch: WeaponSettings,
    pub pneumatic_drill: WeaponSettings,
    pub girder: WeaponSettings,
    pub ninja_rope: WeaponSettings,
    pub parachute: WeaponSettings,
    pub bungee: WeaponSettings,
    pub teleport: WeaponSettings,
    pub dynamite: WeaponSettings,
    pub sheep: WeaponSettings,
    pub baseball_bat: WeaponSettings,
    pub flame_thrower: WeaponSettings,
    pub homing_pigeon: WeaponSettings,
    pub mad_cow: WeaponSettings,
    pub holy_hand_grenade: WeaponSettings,
    pub old_woman: WeaponSettings,
    pub sheep_launcher: WeaponSettings,
    pub super_sheep: WeaponSettings,
    pub mole_bomb: WeaponSettings,
    pub jet_pack: WeaponSettings,
    pub low_gravity: WeaponSettings,
    pub laser_sight: WeaponSettings,
    pub fast_walk: WeaponSettings,
    pub invisibility: WeaponSettings,
    pub damage_x2: WeaponSettings,
}

/// Entry `j` of `x`, in file order.
pub open spec fn standard_weapons_at(x: StandardWeapons, j: int) -> WeaponSettings {
    if j == 0 {
        x.bazooka
    } else if j == 1 {
        x.homing_missile
    } else if j == 2 {
        x.mortar
    } else if j == 3 {
        x.grenade
    } else if j == 4 {
        x.cluster_bomb
    } else if j == 5 {
        x.skunk
    } else if j == 6 {
        x.petrol_bomb
    } else if j == 7 {
        x.banana_bomb
    } else if j == 8 {
        x.handgun
    } else if j == 9 {
        x.shotgun
    } else if j == 10 {
        x.uzi
    } else if j == 11 {
        x.minigun
    } else if j == 12 {
        x.longbow
    } else if j == 13 {
        x.airstrike
    } else if j == 14 {
        x.napalm_strike
    } else if j == 15 {
        x.mine
    } else if j == 16 {
        x.fire_punch
    } else if j == 17 {
        x.dragon_ball
    } else if j == 18 {
        x.kamikaze
    } else if j == 19 {
        x.prod
    } else if j == 20 {
        x.battle_axe
    } else if j == 21 {
        x.blowtorch
    } else if j == 22 {
        x.pneumatic_drill
    } else if j == 23 {
        x.girder
    } else if j == 24 {
        x.ninja_rope
    } else if j == 25 {
        x.parachute
    } else if j == 26 {
        x.bungee
    } else if j == 27 {
        x.teleport
    } else if j == 28 {
        x.dynamite
    } else if j == 29 {
        x.sheep
    } else if j == 30 {
        x.baseball_bat
    } else if j == 31 {
        x.flame_thrower
    } else if j == 32 {
        x.homing_pigeon
    } else if j == 33 {
        x.mad_cow
    } else if j == 34 {
        x.holy_hand_grenade
    } else if j == 35 {
        x.old_woman
    } else if j == 36 {
        x.sheep_launcher
    } else if j == 37 {
        x.super_sheep
    } else if j == 38 {
        x.mole_bomb
    } else if j == 39 {
        x.jet_pack
    } else if j == 40 {
        x.low_gravity
    } else if j == 41 {
        x.laser_sight
    } else if j == 42 {
        x.fast_walk
    } else if j == 43 {
        x.invisibility
    } else if j == 44 {
        x.damage_x2
    } else {
        weapon_settings_default()
    }
}

/// The entries of `x`, in file order.
pub open spec fn standard_weapons_list(x: StandardWeapons) -> Seq<WeaponSettings> {
    Seq::new(45, |j: int| standard_weapons_at(x, j))
}

/// The `StandardWeapons` with the entries `l`, in file order.
pub open spec fn standard_weapons_from_seq(l: Seq<WeaponSettings>) -> StandardWeapons {
    StandardWeapons {
        bazooka: l[0],
        homing_missile: l[1],
        mortar: l[2],
        grenade: l[3],
        cluster_bomb: l[4],
        skunk: l[5],
        petrol_bomb: l[6],
        banana_bomb: l[7],
        handgun: l[8],
        shotgun: l[9],
        uzi: l[10],
        minigun: l[11],
        longbow: l[12],
        airstrike: l[13],
        napalm_strike: l[14],
        mine: l[15],
        fire_punch: l[16],
        dragon_ball: l[17],
        kamikaze: l[18],
        prod: l[19],
        battle_axe: l[20],
        blowtorch: l[21],
        pneumatic_drill: l[22],
        girder: l[23],
        ninja_rope: l[24],
        parachute: l[25],
        bungee: l[26],
        teleport: l[27],
        dynamite: l[28],
        sheep: l[29],
        baseball_bat: l[30],
        flame_thrower: l[31],
        homing_pigeon: l[32],
        mad_cow: l[33],
        holy_hand_grenade: l[34],
        old_woman: l[35],
        sheep_launcher: l[36],
        super_sheep: l[37],
        mole_bomb: l[38],
        jet_pack: l[39],
        low_gravity: l[40],
        laser_sight: l[41],
        fast_walk: l[42],
        invisibility: l[43],
        damage_x2: l[44],
    }
}

/// Every entry of `x` can be written.
pub open spec fn standard_weapons_ok(x: StandardWeapons) -> bool {
    settings_ok(standard_weapons_list(x))
}

fn standard_weapons_get(x: &StandardWeapons, j: usize) -> (r: WeaponSettings)
    requires
        j < 45,
    ensures
        r == standard_weapons_at(*x, j as int),
{
    if j == 0 {
        x.bazooka
    } else if j == 1 {
        x.homing_missile
    } else if j == 2 {
        x.mortar
    } else if j == 3 {
        x.grenade
    } else if j == 4 {
        x.cluster_bomb
    } else if j == 5 {
        x.skunk
    } else if j == 6 {
        x.petrol_bomb
    } else if j == 7 {
        x.banana_bomb
    } else if j == 8 {
        x.handgun
    } else if j == 9 {
        x.shotgun
    } else if j == 10 {
        x.uzi
    } else if j == 11 {
        x.minigun
    } else if j == 12 {
        x.longbow
    } else if j == 13 {
        x.airstrike
    } else if j == 14 {
        x.napalm_strike
    } else if j == 15 {
        x.mine
    } else if j == 16 {
        x.fire_punch
    } else if j == 17 {
        x.dragon_ball
    } else if j == 18 {
        x.kamikaze
    } else if j == 19 {
        x.prod
    } else if j == 20 {
        x.battle_axe
    } else if j == 21 {
        x.blowtorch
    } else if j == 22 {
        x.pneumatic_drill
    } else if j == 23 {
        x.girder
    } else if j == 24 {
        x.ninja_rope
    } else if j == 25 {
        x.parachute
    } else if j == 26 {
        x.bungee
    } else if j == 27 {
        x.teleport
    } else if j == 28 {
        x.dynamite
    } else if j == 29 {
        x.sheep
    } else if j == 30 {
        x.baseball_bat
    } else if j == 31 {
        x.flame_thrower
    } else if j == 32 {
        x.homing_pigeon
    } else if j == 33 {
        x.mad_cow
    } else if j == 34 {
        x.holy_hand_grenade
    } else if j == 35 {
        x.old_woman
    } else if j == 36 {
        x.sheep_launcher
    } else if j == 37 {
        x.super_sheep
    } else if j == 38 {
        x.mole_bomb
    } else if j == 39 {
        x.jet_pack
    } else if j == 40 {
        x.low_gravity
    } else if j == 41 {
        x.laser_sight
    } else if j == 42 {
        x.fast_walk
    } else if j == 43 {
        x.invisibility
    } else if j == 44 {
        x.damage_x2
    } else {
        WeaponSettings::default()
    }
}

pub fn standard_weapons_vec(x: &StandardWeapons) -> (r: Vec<WeaponSettings>)
    ensures
        r@ == standard_weapons_list(*x),
{
    let mut v: Vec<WeaponSettings> = Vec::new();
    let mut j: usize = 0;
    while j < 45
        invariant
            0 <= j <= 45,
            v@ =~= Seq::new(j as nat, |i: int| standard_weapons_at(*x, i)),
        decreases 45 - j,
    {
        v.push(standard_weapons_get(x, j));
        j = j + 1;
    }
    v
}

pub fn standard_weapons_from_vec(v: &Vec<WeaponSettings>) -> (r: StandardWeapons)
    requires
        v@.len() == 45,
    ensures
        r == standard_weapons_from_seq(v@),
{
    StandardWeapons {
        bazooka: v[0],
        homing_missile: v[1],
        mortar: v[2],
        grenade: v[3],
        cluster_bomb: v[4],
        skunk: v[5],
        petrol_bomb: v[6],
        banana_bomb: v[7],
        handgun: v[8],
        shotgun: v[9],
        uzi: v[10],
        minigun: v[11],
        longbow: v[12],
        airstrike: v[13],
        napalm_strike: v[14],
        mine: v[15],
        fire_punch: v[16],
        dragon_ball: v[17],
        kamikaze: v[18],
        prod: v[19],
        battle_axe: v[20],
        blowtorch: v[21],
        pneumatic_drill: v[22],
        girder: v[23],
        ninja_rope: v[24],
        parachute: v[25],
        bungee: v[26],
        teleport: v[27],
        dynamite: v[28],
        sheep: v[29],
        baseball_bat: v[30],
        flame_thrower: v[31],
        homing_pigeon: v[32],
        mad_cow: v[33],
        holy_hand_grenade: v[34],
        old_woman: v[35],
        sheep_launcher: v[36],
        super_sheep: v[37],
        mole_bomb: v[38],
        jet_pack: v[39],
        low_gravity: v[40],
        laser_sight: v[41],
        fast_walk: v[42],
        invisibility: v[43],
        damage_x2: v[44],
    }
}

pub proof fn lemma_standard_weapons_list_inverse(l: Seq<WeaponSettings>)
    requires
        l.len() == 45,
    ensures
        standard_weapons_list(standard_weapons_from_seq(l)) == l,
{
    let x = standard_weapons_from_seq(l);
    assert forall|j: int| 0 <= j < 8 implies #[trigger] standard_weapons_at(x, j) == l[j] by {}
    assert forall|j: int| 8 <= j < 16 implies #[trigger] standard_weapons_at(x, j) == l[j] by {}
    assert forall|j: int| 16 <= j < 24 implies #[trigger] standard_weapons_at(x, j) == l[j] by {}
    assert forall|j: int| 24 <= j < 32 implies #[trigger] standard_weapons_at(x, j) == l[j] by {}
    assert forall|j: int| 32 <= j < 40 implies #[trigger] standard_weapons_at(x, j) == l[j] by {}
    assert forall|j: int| 40 <= j < 45 implies #[trigger] standard_weapons_at(x, j) == l[j] by {}
    assert(standard_weapons_list(x) =~= l);
}

pub proof fn lemma_standard_weapons_list_roundtrip(x: StandardWeapons)
    ensures
        standard_weapons_list(x).len() == 45,
        standard_weapons_from_seq(standard_weapons_list(x)) == x,
{
}

/// Default value of `StandardWeapons`: default settings for every weapon.
pub open spec fn standard_weapons_default() -> StandardWeapons {
    StandardWeapons {
        bazooka: weapon_settings_default(),
        homing_missile: weapon_settings_default(),
        mortar: weapon_settings_default(),
        grenade: weapon_settings_default(),
        cluster_bomb: weapon_settings_default(),
        skunk: weapon_settings_default(),
        petrol_bomb: weapon_settings_default(),
        banana_bomb: weapon_settings_default(),
        handgun: weapon_settings_default(),
        shotgun: weapon_settings_default(),
        uzi: weapon_settings_default(),
        minigun: weapon_settings_default(),
        longbow: weapon_settings_default(),
        airstrike: weapon_settings_default(),
        napalm_strike: weapon_settings_default(),
        mine: weapon_settings_default(),
        fire_punch: weapon_settings_default(),
        dragon_ball: weapon_settings_default(),
        kamikaze: weapon_settings_default(),
        prod: weapon_settings_default(),
        battle_axe: weapon_settings_default(),
        blowtorch: weapon_settings_default(),
        pneumatic_drill: weapon_settings_default(),
        girder: weapon_settings_default(),
        ninja_rope: weapon_settings_default(),
        parachute: weapon_settings_default(),
        bungee: weapon_settings_default(),
        teleport: weapon_settings_default(),
        dynamite: weapon_settings_default(),
        sheep: weapon_settings_default(),
        baseball_bat: weapon_settings_default(),
        flame_thrower: weapon_settings_default(),
        homing_pigeon: weapon_settings_default(),
        mad_cow: weapon_settings_default(),
        holy_hand_grenade: weapon_settings_default(),
        old_woman: weapon_settings_default(),
        sheep_launcher: weapon_settings_default(),
        super_sheep: weapon_settings_default(),
        mole_bomb: weapon_settings_default(),
        jet_pack: weapon_settings_default(),
        low_gravity: weapon_settings_default(),
        laser_sight: weapon_settings_default(),
        fast_walk: weapon_settings_default(),
        invisibility: weapon_settings_default(),
        damage_x2: weapon_settings_default(),
    }
}

impl Default for StandardWeapons {
    fn default() -> (r: StandardWeapons)
        ensures
            r == standard_weapons_default(),
    {
        StandardWeapons {
            bazooka: WeaponSettings::default(),
            homing_missile: WeaponSettings::default(),
            mortar: WeaponSettings::default(),
            grenade: WeaponSettings::default(),
            cluster_bomb: WeaponSettings::default(),
            skunk: WeaponSettings::default(),
            petrol_bomb: WeaponSettings::default(),
            banana_bomb: WeaponSettings::default(),
            handgun: WeaponSettings::default(),
            shotgun: WeaponSettings::default(),
            uzi: WeaponSettings::default(),
            minigun: WeaponSettings::default(),
            longbow: WeaponSettings::default(),
            airstrike: WeaponSettings::default(),
            napalm_strike: WeaponSettings::default(),
            mine: WeaponSettings::default(),
            fire_punch: WeaponSettings::default(),
            dragon_ball: WeaponSettings::default(),
            kamikaze: WeaponSettings::default(),
            prod: WeaponSettings::default(),
            battle_axe: WeaponSettings::default(),
            blowtorch: WeaponSettings::default(),
            pneumatic_drill: WeaponSettings::default(),
            girder: WeaponSettings::default(),
            ninja_rope: WeaponSettings::default(),
            parachute: WeaponSettings::default(),
            bungee: WeaponSettings::default(),
            teleport: WeaponSettings::default(),
            dynamite: WeaponSettings::default(),
            sheep: WeaponSettings::default(),
            baseball_bat: WeaponSettings::default(),
            flame_thrower: WeaponSettings::default(),
            homing_pigeon: WeaponSettings::default(),
            mad_cow: WeaponSettings::default(),
            holy_hand_grenade: WeaponSettings::default(),
            old_woman: WeaponSettings::default(),
            sheep_launcher: WeaponSettings::default(),
            super_sheep: WeaponSettings::default(),
            mole_bomb: WeaponSettings::default(),
            jet_pack: WeaponSettings::default(),
            low_gravity: WeaponSettings::default(),
            laser_sight: WeaponSettings::default(),
            fast_walk: WeaponSettings::default(),
            invisibility: WeaponSettings::default(),
            damage_x2: WeaponSettings::default(),
        }
    }
}

impl StandardWeapons {
    /// The entries' bytes, in file order; a finite ammunition count above 9
    /// cannot be written.
    pub fn to_bytes(&self) -> (r: Result<Vec<u8>, LayoutError>)
        ensures
            match r {
                Ok(v) => standard_weapons_ok(*self) && v@ == settings_bytes(standard_weapons_list(*self)),
                Err(e) => !standard_weapons_ok(*self) && e == LayoutError::Parse,
            },
    {
        let l = standard_weapons_vec(self);
        if !settings_all_ok(&l) {
            return Err(LayoutError::Parse);
        }
        let mut out: Vec<u8> = Vec::new();
        write_settings(&l, &mut out);
        assert(out@ =~= settings_bytes(standard_weapons_list(*self)));
        Ok(out)
    }
}

/// Super weapon settings added by V2 schemes.
#[derive(Debug, Clone, Copy, PartialEq, Eq, Structural)]
pub struct SuperWeapons {
    pub freeze: WeaponSettings,
    pub super_banana_bomb: WeaponSettings,
    pub mine_strike: WeaponSettings,
    pub girder_starter_pack: WeaponSettings,
    pub earthquake: WeaponSettings,
    pub scales_of_justice: WeaponSettings,
    pub ming_vase: WeaponSettings,
    pub mikes_carpet_bomb: WeaponSettings,
    pub patsys_magic_bullet: WeaponSettings,
    pub indian_nuclear_test: WeaponSettings,
    pub select_worm: WeaponSettings,
    pub salvation_army: WeaponSettings,
    pub mole_squadron: WeaponSettings,
    pub mb_bomb: WeaponSettings,
    pub concrete_donkey: WeaponSettings,
    pub suicide_bomber: WeaponSettings,
    pub sheep_strike: WeaponSettings,
    pub mail_strike: WeaponSettings,
    pub armageddon: WeaponSettings,
}

/// Entry `j` of `x`, in file order.
pub open spec fn super_weapons_at(x: SuperWeapons, j: int) -> WeaponSettings {
    if j == 0 {
        x.freeze
    } else if j == 1 {
        x.super_banana_bomb
    } else if j == 2 {
        x.mine_strike
    } else if j == 3 {
        x.girder_starter_pack
    } else if j == 4 {
        x.earthquake
    } else if j == 5 {
        x.scales_of_justice
    } else if j == 6 {
        x.ming_vase
    } else if j == 7 {
        x.mikes_carpet_bomb
    } else if j == 8 {
        x.patsys_magic_bullet
    } else if j == 9 {
        x.indian_nuclear_test
    } else if j == 10 {
        x.select_worm
    } else if j == 11 {
        x.salvation_army
    } else if j == 12 {
        x.mole_squadron
    } else if j == 13 {
        x.mb_bomb
    } else if j == 14 {
        x.concrete_donkey
    } else if j == 15 {
        x.suicide_bomber
    } else if j == 16 {
        x.sheep_strike
    } else if j == 17 {
        x.mail_strike
    } else if j == 18 {
        x.armageddon
    } else {
        weapon_settings_default()
    }
}

/// The entries of `x`, in file order.
pub open spec fn super_weapons_list(x: SuperWeapons) -> Seq<WeaponSettings> {
    Seq::new(19, |j: int| super_weapons_at(x, j))
}

/// The `SuperWeapons` with the entries `l`, in file order.
pub open spec fn super_weapons_from_seq(l: Seq<WeaponSettings>) -> SuperWeapons {
    SuperWeapons {
        freeze: l[0],
        super_banana_bomb: l[1],
        mine_strike: l[2],
        girder_starter_pack: l[3],
        earthquake: l[4],
        scales_of_justice: l[5],
        ming_vase: l[6],
        mikes_carpet_bomb: l[7],
        patsys_magic_bullet: l[8],
        indian_nuclear_test: l[9],
        select_worm: l[10],
        salvation_army: l[11],
        mole_squadron: l[12],
        mb_bomb: l[13],
        concrete_donkey: l[14],
        suicide_bomber: l[15],
        sheep_strike: l[16],
        mail_strike: l[17],
        armageddon: l[18],
    }
}

/// Every entry of `x` can be written.
pub open spec fn super_weapons_ok(x: SuperWeapons) -> bool {
    settings_ok(super_weapons_list(x))
}

fn super_weapons_get(x: &SuperWeapons, j: usize) -> (r: WeaponSettings)
    requires
        j < 19,
    ensures
        r == super_weapons_at(*x, j as int),
{
    if j == 0 {
        x.freeze
    } else if j == 1 {
        x.super_banana_bomb
    } else if j == 2 {
        x.mine_strike
    } else if j == 3 {
        x.girder_starter_pack
    } else if j == 4 {
        x.earthquake
    } else if j == 5 {
        x.scales_of_justice
    } else if j == 6 {
        x.ming_vase
    } else if j == 7 {
        x.mikes_carpet_bomb
    } else if j == 8 {
        x.patsys_magic_bullet
    } else if j == 9 {
        x.indian_nuclear_test
    } else if j == 10 {
        x.select_worm
    } else if j == 11 {
        x.salvation_army
    } else if j == 12 {
        x.mole_squadron
    } else if j == 13 {
        x.mb_bomb
    } else if j == 14 {
        x.concrete_donkey
    } else if j == 15 {
        x.suicide_bomber
    } else if j == 16 {
        x.sheep_strike
    } else if j == 17 {
        x.mail_strike
    } else if j == 18 {
        x.armageddon
    } else {
        WeaponSettings::default()
    }
}

pub fn super_weapons_vec(x: &SuperWeapons) -> (r: Vec<WeaponSettings>)
    ensures
        r@ == super_weapons_list(*x),
{
    let mut v: Vec<WeaponSettings> = Vec::new();
    let mut j: usize = 0;
    while j < 19
        invariant
            0 <= j <= 19,
            v@ =~= Seq::new(j as nat, |i: int| super_weapons_at(*x, i)),
        decreases 19 - j,
    {
        v.push(super_weapons_get(x, j));
        j = j + 1;
    }
    v
}

pub fn super_weapons_from_vec(v: &Vec<WeaponSettings>) -> (r: SuperWeapons)
    requires
        v@.len() == 19,
    ensures
        r == super_weapons_from_seq(v@),
{
    SuperWeapons {
        freeze: v[0],
        super_banana_bomb: v[1],
        mine_strike: v[2],
        girder_starter_pack: v[3],
        earthquake: v[4],
        scales_of_justice: v[5],
        ming_vase: v[6],
        mikes_carpet_bomb: v[7],
        patsys_magic_bullet: v[8],
        indian_nuclear_test: v[9],
        select_worm: v[10],
        salvation_army: v[11],
        mole_squadron: v[12],
        mb_bomb: v[13],
        concrete_donkey: v[14],
        suicide_bomber: v[15],
        sheep_strike: v[16],
        mail_strike: v[17],
        armageddon: v[18],
    }
}

pub proof fn lemma_super_weapons_list_inverse(l: Seq<WeaponSettings>)
    requires
        l.len() == 19,
    ensures
        super_weapons_list(super_weapons_from_seq(l)) == l,
{
    let x = super_weapons_from_seq(l);
    assert forall|j: int| 0 <= j < 8 implies #[trigger] super_weapons_at(x, j) == l[j] by {}
    assert forall|j: int| 8 <= j < 16 implies #[trigger] super_weapons_at(x, j) == l[j] by {}
    assert forall|j: int| 16 <= j < 19 implies #[trigger] super_weapons_at(x, j) == l[j] by {}
    assert(super_weapons_list(x) =~= l);
}

pub proof fn lemma_super_weapons_list_roundtrip(x: SuperWeapons)
    ensures
        super_weapons_list(x).len() == 19,
        super_weapons_from_seq(super_weapons_list(x)) == x,
{
}

/// Default value of `SuperWeapons`: default settings for every weapon.
pub open spec fn super_weapons_default() -> SuperWeapons {
    SuperWeapons {
        freeze: weapon_settings_default(),
        super_banana_bomb: weapon_settings_default(),
        mine_strike: weapon_settings_default(),
        girder_starter_pack: weapon_settings_default(),
        earthquake: weapon_settings_default(),
        scales_of_justice: weapon_settings_default(),
        ming_vase: weapon_settings_default(),
        mikes_carpet_bomb: weapon_settings_default(),
        patsys_magic_bullet: weapon_settings_default(),
        indian_nuclear_test: weapon_settings_default(),
        select_worm: weapon_settings_default(),
        salvation_army: weapon_settings_default(),
        mole_squadron: weapon_settings_default(),
        mb_bomb: weapon_settings_default(),
        concrete_donkey: weapon_settings_default(),
        suicide_bomber: weapon_settings_default(),
        sheep_strike: weapon_settings_default(),
        mail_strike: weapon_settings_default(),
        armageddon: weapon_settings_default(),
    }
}

impl Default for SuperWeapons {
    fn default() -> (r: SuperWeapons)
        ensures
            r == super_weapons_default(),
    {
        SuperWeapons {
            freeze: WeaponSettings::default(),
            super_banana_bomb: WeaponSettings::default(),
            mine_strike: WeaponSettings::default(),
            girder_starter_pack: WeaponSettings::default(),
            earthquake: WeaponSettings::default(),
            scales_of_justice: WeaponSettings::default(),
            ming_vase: WeaponSettings::default(),
            mikes_carpet_bomb: WeaponSettings::default(),
            patsys_magic_bullet: WeaponSettings::default(),
            indian_nuclear_test: WeaponSettings::default(),
            select_worm: WeaponSettings::default(),
            salvation_army: WeaponSettings::default(),
            mole_squadron: WeaponSettings::default(),
            mb_bomb: WeaponSettings::default(),
            concrete_donkey: WeaponSettings::default(),
            suicide_bomber: WeaponSettings::default(),
            sheep_strike: WeaponSettings::default(),
            mail_strike: WeaponSettings::default(),
            armageddon: WeaponSettings::default(),
        }
    }
}

impl SuperWeapons {
    /// The entries' bytes, in file order; a finite ammunition count above 9
    /// cannot be written.
    pub fn to_bytes(&self) -> (r: Result<Vec<u8>, LayoutError>)
        ensures
            match r {
                Ok(v) => super_weapons_ok(*self) && v@ == settings_bytes(super_weapons_list(*self)),
                Err(e) => !super_weapons_ok(*self) && e == LayoutError::Parse,
            },
    {
        let l = super_weapons_vec(self);
        if !settings_all_ok(&l) {
            return Err(LayoutError::Parse);
        }
        let mut out: Vec<u8> = Vec::new();
        write_settings(&l, &mut out);
        assert(out@ =~= settings_bytes(super_weapons_list(*self)));
        Ok(out)
    }
}

/// Scheme file version.
#[derive(Debug, Clone, Copy, PartialEq, Eq, Structural)]
pub enum SchemeVersion {
    V1,
    V2,
    V3,
}

/// The byte that stores each `SchemeVersion`.
pub open spec fn scheme_version_code(x: SchemeVersion) -> u8 {
    match x {
        SchemeVersion::V1 => 1u8,
        SchemeVersion::V2 => 2u8,
        SchemeVersion::V3 => 3u8,
    }
}

/// The `SchemeVersion` stored as `c` (meaningful for the codes of `SchemeVersion`).
pub open spec fn scheme_version_of_code(c: u8) -> SchemeVersion {
    if c == 1u8 { SchemeVersion::V1 } else
    if c == 2u8 { SchemeVersion::V2 } else
    { SchemeVersion::V3 }
}

impl SchemeVersion {
    pub fn code(self) -> (r: u8)
        ensures
            r == scheme_version_code(self),
    {
        match self {
            SchemeVersion::V1 => 1,
            SchemeVersion::V2 => 2,
            SchemeVersion::V3 => 3,
        }
    }

    pub fn from_code(c: u8) -> (r: SchemeVersion)
        requires
            c == 1u8 || c == 2u8 || c == 3u8,
        ensures
            r == scheme_version_of_code(c),
            scheme_version_code(r) == c,
    {
        if c == 1 {
            SchemeVersion::V1
        } else if c == 2 {
            SchemeVersion::V2
        } else {
            SchemeVersion::V3
        }
    }
}

pub proof fn lemma_scheme_options_size()
    ensures
        layout_size(scheme_options_layout()) == OPTIONS_SIZE,
{
    crate::layout::lemma_layout_size_widths(scheme_options_layout());
    reveal_with_fuel(crate::layout::widths_upto, 40);
    assert(crate::layout::widths_upto(scheme_options_layout(), 36) == 36);
}

pub proof fn lemma_extended_options_size()
    ensures
        layout_size(extended_options_layout()) == EXTENDED_OPTIONS_SIZE,
{
    crate::layout::lemma_layout_size_widths(extended_options_layout());
    reveal_with_fuel(crate::layout::widths_upto, 80);
    assert(crate::layout::widths_upto(extended_options_layout(), 73) == 110);
}

/// Fully typed scheme.
#[derive(Debug, Clone, Copy, PartialEq, Eq, Structural)]
pub struct Scheme {
    pub options: SchemeOptions,
    pub weapons: StandardWeapons,
    pub super_weapons: SuperWeapons,
    pub extended_options: ExtendedOptions,
}

/// Default scheme: default options, weapons and extended options.
pub open spec fn scheme_default() -> Scheme {
    Scheme {
        options: scheme_options_default(),
        weapons: standard_weapons_default(),
        super_weapons: super_weapons_default(),
        extended_options: extended_options_default(),
    }
}

impl Default for Scheme {
    fn default() -> (r: Scheme)
        ensures
            r == scheme_default(),
    {
        Scheme {
            options: SchemeOptions::default(),
            weapons: StandardWeapons::default(),
            super_weapons: SuperWeapons::default(),
            extended_options: ExtendedOptions::default(),
        }
    }
}

/// Every field of the extended options passes its check.
pub open spec fn extended_options_valid(e: ExtendedOptions) -> bool {
    vals_ok(extended_options_layout(), extended_options_to_raw(e))
}

/// The scheme can be written: all ammunition counts are writable and the
/// extended options pass their checks.
pub open spec fn scheme_valid(s: Scheme) -> bool {
    &&& standard_weapons_ok(s.weapons)
    &&& super_weapons_ok(s.super_weapons)
    &&& extended_options_valid(s.extended_options)
}

/// The bytes of the game options.
pub open spec fn options_bytes(o: SchemeOptions) -> Seq<u8> {
    encode_fields(scheme_options_layout(), scheme_options_to_raw(o))
}

/// The bytes of the extended options.
pub open spec fn extended_bytes(e: ExtendedOptions) -> Seq<u8> {
    encode_fields(extended_options_layout(), extended_options_to_raw(e))
}

/// The version 3 file of a scheme: magic, version 3, options, standard
/// weapons, super weapons and extended options.
pub open spec fn scheme_bytes(s: Scheme) -> Seq<u8> {
    scheme_head() + options_bytes(s.options) + settings_bytes(
        standard_weapons_list(s.weapons),
    ) + settings_bytes(super_weapons_list(s.super_weapons)) + extended_bytes(s.extended_options)
}

/// The error of the magic check: the magic is read byte by byte, so the
/// input ending before the first mismatch is `Incomplete`, and a mismatch
/// is `Parse`.
pub open spec fn magic_error(b: Seq<u8>) -> Option<LayoutError> {
    let m = spec_scheme_magic();
    if b.len() < 1 {
        Some(LayoutError::Incomplete)
    } else if b[0] != m[0] {
        Some(LayoutError::Parse)
    } else if b.len() < 2 {
        Some(LayoutError::Incomplete)
    } else if b[1] != m[1] {
        Some(LayoutError::Parse)
    } else if b.len() < 3 {
        Some(LayoutError::Incomplete)
    } else if b[2] != m[2] {
        Some(LayoutError::Parse)
    } else if b.len() < 4 {
        Some(LayoutError::Incomplete)
    } else if b[3] != m[3] {
        Some(LayoutError::Parse)
    } else {
        None
    }
}

/// The extended options stored in exactly 110 bytes.
pub open spec fn extended_from_bytes(b: Seq<u8>) -> Result<ExtendedOptions, LayoutError> {
    if b.len() != EXTENDED_OPTIONS_SIZE {
        Err(LayoutError::Parse)
    } else {
        match decode_fields(extended_options_layout(), b, 0) {
            Ok(v) => Ok(extended_options_from_raw(v)),
            Err(e) => Err(e),
        }
    }
}

/// The 110 bytes of the extended options of a version 3 file whose
/// extended part is `tail` (at most 110 bytes): the missing bytes are
/// those of the default extended options.
pub open spec fn padded_extended(tail: Seq<u8>) -> Seq<u8> {
    tail + extended_bytes(extended_options_default()).subrange(
        tail.len() as int,
        EXTENDED_OPTIONS_SIZE as int,
    )
}

/// The scheme stored in the file `b`. Fields are read in file order and the
/// first failure is reported: a field the input ends inside is
/// `Incomplete`; a wrong magic, an unknown version, a bad boolean or enum
/// byte, more than 110 extended bytes, or bytes left after a version 1 or
/// 2 payload are `Parse`; a value outside its range is `Assertion`.
/// Version 1 files get default super weapons; files before version 3 get
/// default extended options.
#[verifier::opaque]
pub open spec fn scheme_decode(b: Seq<u8>) -> Result<Scheme, LayoutError> {
    match magic_error(b) {
        Some(e) => Err(e),
        None => if b.len() < 5 {
            Err(LayoutError::Incomplete)
        } else if !(b[4] == 1 || b[4] == 2 || b[4] == 3) {
            Err(LayoutError::Parse)
        } else {
            let ver = b[4];
            match decode_fields(scheme_options_layout(), b, 5) {
                Err(e) => Err(e),
                Ok(ov) => if b.len() < 221 {
                    Err(LayoutError::Incomplete)
                } else if ver != 1 && b.len() < 297 {
                    Err(LayoutError::Incomplete)
                } else {
                    let options = scheme_options_from_raw(ov);
                    let weapons = standard_weapons_from_seq(settings_from(b, 41, 45));
                    let super_weapons = if ver == 1 {
                        super_weapons_default()
                    } else {
                        super_weapons_from_seq(settings_from(b, 221, 19))
                    };
                    if ver == 3 {
                        if b.len() - 297 > EXTENDED_OPTIONS_SIZE {
                            Err(LayoutError::Parse)
                        } else {
                            match decode_fields(
                                extended_options_layout(),
                                padded_extended(b.subrange(297, b.len() as int)),
                                0,
                            ) {
                                Err(e) => Err(e),
                                Ok(ev) => Ok(
                                    Scheme {
                                        options,
                                        weapons,
                                        super_weapons,
                                        extended_options: extended_options_from_raw(ev),
                                    },
                                ),
                            }
                        }
                    } else if b.len() > (if ver == 1 {
                        221int
                    } else {
                        297int
                    }) {
                        Err(LayoutError::Parse)
                    } else {
                        Ok(
                            Scheme {
                                options,
                                weapons,
                                super_weapons,
                                extended_options: extended_options_default(),
                            },
                        )
                    }
                },
            }
        },
    }
}

impl SchemeOptions {
    /// The 36 bytes of the options.
    pub fn to_bytes(&self) -> (r: Result<Vec<u8>, LayoutError>)
        ensures
            r matches Ok(v) && v@ == options_bytes(*self),
    {
        let l = scheme_options_layout_exec();
        let mut vals: Vec<i64> = Vec::new();
        scheme_options_push_vals(self, &mut vals);
        proof {
            lemma_scheme_options_layout_ok();
            lemma_scheme_options_typed_ok(*self);
            assert(vals@ =~= scheme_options_to_raw(*self));
        }
        let mut out: Vec<u8> = Vec::new();
        encode_fields_into(&l, &vals, &mut out);
        assert(out@ =~= options_bytes(*self));
        Ok(out)
    }
}

impl ExtendedOptions {
    /// The options pass all their checks.
    pub open spec fn valid(self) -> bool {
        extended_options_valid(self)
    }

    /// The extended options stored in `b`, which must hold exactly 110
    /// bytes.
    pub fn from_bytes(b: &[u8]) -> (r: Result<ExtendedOptions, LayoutError>)
        ensures
            r == extended_from_bytes(b@),
    {
        if b.len() != EXTENDED_OPTIONS_SIZE {
            return Err(LayoutError::Parse);
        }
        let l = extended_options_layout_exec();
        proof {
            lemma_extended_options_layout_ok();
        }
        match decode_fields_from(&l, b, 0) {
            Ok(v) => {
                proof {
                    crate::layout::lemma_decode_ok(extended_options_layout(), b@, 0);
                    assert(v@.subrange(0, 73) =~= v@);
                }
                Ok(extended_options_from_vals(&v, 0))
            },
            Err(e) => Err(e),
        }
    }

    /// The 110 bytes of the options; the first field that fails its check
    /// is reported as `Assertion`.
    pub fn to_bytes(&self) -> (r: Result<Vec<u8>, LayoutError>)
        ensures
            match r {
                Ok(v) => self.valid() && v@ == extended_bytes(*self),
                Err(e) => !self.valid() && Some(e) == first_error(
                    extended_options_layout(),
                    extended_options_to_raw(*self),
                ),
            },
    {
        let l = extended_options_layout_exec();
        let mut vals: Vec<i64> = Vec::new();
        extended_options_push_vals(self, &mut vals);
        proof {
            lemma_extended_options_layout_ok();
            lemma_extended_options_typed_width(*self);
            assert(vals@ =~= extended_options_to_raw(*self));
        }
        match first_error_of(&l, &vals) {
            Some(e) => {
                proof {
                    crate::layout::lemma_first_error_some(extended_options_layout(), vals@);
                }
                Err(e)
            },
            None => {
                let mut out: Vec<u8> = Vec::new();
                encode_fields_into(&l, &vals, &mut out);
                assert(out@ =~= extended_bytes(*self));
                Ok(out)
            },
        }
    }

    /// The bytes of the default extended options.
    pub fn default_bytes() -> (r: [u8; 110])
        ensures
            r@ == extended_bytes(extended_options_default()),
    {
        let d = ExtendedOptions::default();
        let l = extended_options_layout_exec();
        let mut vals: Vec<i64> = Vec::new();
        extended_options_push_vals(&d, &mut vals);
        proof {
            lemma_extended_options_layout_ok();
            lemma_extended_options_default_valid();
            assert(vals@ =~= extended_options_to_raw(d));
            lemma_extended_options_size();
            crate::layout::lemma_encode_len(extended_options_layout(), vals@);
        }
        let mut out: Vec<u8> = Vec::new();
        encode_fields_into(&l, &vals, &mut out);
        let mut r: [u8; 110] = [0u8; 110];
        let mut i: usize = 0;
        while i < EXTENDED_OPTIONS_SIZE
            invariant
                0 <= i <= 110,
                out@.len() == 110,
                r@.len() == 110,
                forall|j: int| 0 <= j < i ==> r@[j] == out@[j],
            decreases 110 - i,
        {
            r[i] = out[i];
            i = i + 1;
        }
        assert(r@ =~= out@);
        r
    }

    /// Whether `b` holds valid extended options (see `from_bytes`).
    pub fn validate_bytes(b: &[u8]) -> (r: bool)
        ensures
            r == (extended_from_bytes(b@) is Ok),
    {
        ExtendedOptions::from_bytes(b).is_ok()
    }
}

/// A version 3 file is 407 bytes long and its version byte is 3.
pub proof fn lemma_scheme_bytes_len(s: Scheme)
    ensures
        scheme_bytes(s).len() == SCHEME_HEADER_SIZE + SCHEME_PAYLOAD_V3,
        scheme_bytes(s)[4] == 3,
{
    lemma_scheme_options_layout_ok();
    lemma_extended_options_layout_ok();
    lemma_scheme_options_size();
    lemma_extended_options_size();
    lemma_scheme_options_raw_roundtrip(s.options);
    lemma_extended_options_raw_roundtrip(s.extended_options);
    crate::layout::lemma_encode_len(scheme_options_layout(), scheme_options_to_raw(s.options));
    crate::layout::lemma_encode_len(
        extended_options_layout(),
        extended_options_to_raw(s.extended_options),
    );
    lemma_settings_bytes_index(standard_weapons_list(s.weapons));
    lemma_settings_bytes_index(super_weapons_list(s.super_weapons));
}

impl Scheme {
    /// The scheme stored in the file `data` (see `scheme_decode`).
    #[verifier::rlimit(60)]
    pub fn try_from(data: &[u8]) -> (r: Result<Scheme, LayoutError>)
        ensures
            r == scheme_decode(data@),
    {
        proof {
            reveal(scheme_decode);
        }
        let n: usize = data.len();
        let m = scheme_magic();
        if n < 1 {
            return Err(LayoutError::Incomplete);
        }
        if data[0] != m[0] {
            return Err(LayoutError::Parse);
        }
        if n < 2 {
            return Err(LayoutError::Incomplete);
        }
        if data[1] != m[1] {
            return Err(LayoutError::Parse);
        }
        if n < 3 {
            return Err(LayoutError::Incomplete);
        }
        if data[2] != m[2] {
            return Err(LayoutError::Parse);
        }
        if n < 4 {
            return Err(LayoutError::Incomplete);
        }
        if data[3] != m[3] {
            return Err(LayoutError::Parse);
        }
        if n < 5 {
            return Err(LayoutError::Incomplete);
        }
        let ver: u8 = data[4];
        if ver != 1 && ver != 2 && ver != 3 {
            return Err(LayoutError::Parse);
        }
        let ol = scheme_options_layout_exec();
        proof {
            lemma_scheme_options_layout_ok();
        }
        let ov = match decode_fields_from(&ol, data, 5) {
            Ok(v) => v,
            Err(e) => {
                return Err(e);
            },
        };
        proof {
            crate::layout::lemma_decode_ok(scheme_options_layout(), data@, 5);
            assert(ov@.subrange(0, 36) =~= ov@);
        }
        if n < 221 {
            return Err(LayoutError::Incomplete);
        }
        if ver != 1 && n < 297 {
            return Err(LayoutError::Incomplete);
        }
        let options = scheme_options_from_vals(&ov, 0);
        let wv = read_settings(data, 41, 45);
        let weapons = standard_weapons_from_vec(&wv);
        let super_weapons = if ver == 1 {
            SuperWeapons::default()
        } else {
            let sv = read_settings(data, 221, 19);
            super_weapons_from_vec(&sv)
        };
        if ver == 3 {
            let rest: usize = n - 297;
            if rest > EXTENDED_OPTIONS_SIZE {
                return Err(LayoutError::Parse);
            }
            let defaults: [u8; 110] = ExtendedOptions::default_bytes();
            proof {
                lemma_extended_options_layout_ok();
                lemma_extended_options_size();
                lemma_extended_options_default_valid();
                crate::layout::lemma_encode_len(
                    extended_options_layout(),
                    extended_options_to_raw(extended_options_default()),
                );
            }
            let mut eb: Vec<u8> = Vec::new();
            let mut i: usize = 297;
            while i < n
                invariant
                    297 <= i <= n,
                    n == data@.len(),
                    eb@ =~= data@.subrange(297, i as int),
                decreases n - i,
            {
                eb.push(data[i]);
                i = i + 1;
            }
            let mut j: usize = rest;
            while j < EXTENDED_OPTIONS_SIZE
                invariant
                    rest <= j <= 110,
                    rest == n - 297,
                    n == data@.len(),
                    defaults@.len() == 110,
                    eb@ =~= data@.subrange(297, n as int) + defaults@.subrange(rest as int, j as int),
                decreases 110 - j,
            {
                eb.push(defaults[j]);
                j = j + 1;
            }
            assert(eb@ =~= padded_extended(data@.subrange(297, n as int)));
            let el = extended_options_layout_exec();
            match decode_fields_from(&el, eb.as_slice(), 0) {
                Ok(ev) => {
                    proof {
                        crate::layout::lemma_decode_ok(extended_options_layout(), eb@, 0);
                        assert(ev@.subrange(0, 73) =~= ev@);
                    }
                    let extended_options = extended_options_from_vals(&ev, 0);
                    Ok(Scheme { options, weapons, super_weapons, extended_options })
                },
                Err(e) => Err(e),
            }
        } else {
            let end: usize = if ver == 1 {
                221
            } else {
                297
            };
            if n > end {
                return Err(LayoutError::Parse);
            }
            Ok(Scheme { options, weapons, super_weapons, extended_options: ExtendedOptions::default() })
        }
    }

    /// The scheme as a full version 3 file.
    pub fn to_bytes(&self) -> (r: Vec<u8>)
        requires
            scheme_valid(*self),
        ensures
            r@ == scheme_bytes(*self),
            r@.len() == SCHEME_HEADER_SIZE + SCHEME_PAYLOAD_V3,
    {
        let m = scheme_magic();
        let mut out: Vec<u8> = Vec::new();
        out.push(m[0]);
        out.push(m[1]);
        out.push(m[2]);
        out.push(m[3]);
        out.push(3u8);
        let ghost head = out@;
        let ol = scheme_options_layout_exec();
        let mut ov: Vec<i64> = Vec::new();
        scheme_options_push_vals(&self.options, &mut ov);
        proof {
            lemma_scheme_options_layout_ok();
            lemma_scheme_options_typed_ok(self.options);
            assert(ov@ =~= scheme_options_to_raw(self.options));
        }
        encode_fields_into(&ol, &ov, &mut out);
        let ghost a = out@;
        let wl = standard_weapons_vec(&self.weapons);
        write_settings(&wl, &mut out);
        let ghost b = out@;
        let sl = super_weapons_vec(&self.super_weapons);
        write_settings(&sl, &mut out);
        let ghost c = out@;
        let el = extended_options_layout_exec();
        let mut ev: Vec<i64> = Vec::new();
        extended_options_push_vals(&self.extended_options, &mut ev);
        proof {
            lemma_extended_options_layout_ok();
            assert(ev@ =~= extended_options_to_raw(self.extended_options));
        }
        encode_fields_into(&el, &ev, &mut out);
        proof {
            assert(head =~= scheme_head());
            assert(out@ =~= scheme_bytes(*self));
            lemma_scheme_bytes_len(*self);
        }
        out
    }

    /// The payload of the version 3 file, without the header.
    pub fn payload_bytes(&self) -> (r: [u8; 402])
        requires
            scheme_valid(*self),
        ensures
            r@ == scheme_bytes(*self).subrange(5, 407),
    {
        let v = self.to_bytes();
        let mut r: [u8; 402] = [0u8; 402];
        let mut i: usize = 0;
        while i < SCHEME_PAYLOAD_V3
            invariant
                0 <= i <= 402,
                v@.len() == 407,
                r@.len() == 402,
                forall|j: int| 0 <= j < i ==> r@[j] == v@[j + 5],
            decreases 402 - i,
        {
            r[i] = v[i + 5];
            i = i + 1;
        }
        assert(r@ =~= v@.subrange(5, 407));
        r
    }

    /// Size of the written file.
    pub fn file_size(&self) -> (r: usize)
        ensures
            r == SCHEME_HEADER_SIZE + SCHEME_PAYLOAD_V3,
    {
        SCHEME_HEADER_SIZE + SCHEME_PAYLOAD_V3
    }

    /// Whether the scheme can be written (see `scheme_valid`).
    pub fn is_valid(&self) -> (r: bool)
        ensures
            r == scheme_valid(*self),
    {
        self.weapons.to_bytes().is_ok() && self.super_weapons.to_bytes().is_ok()
            && self.extended_options.to_bytes().is_ok()
    }

    /// The scheme whose version 3 payload, without the header, is
    /// `payload`; the payload must be complete.
    #[verifier::rlimit(40)]
    pub fn from_payload_bytes(payload: &[u8]) -> (r: Result<Scheme, LayoutError>)
        ensures
            r == (if payload@.len() != SCHEME_PAYLOAD_V3 {
                Err(LayoutError::Parse)
            } else {
                scheme_decode(scheme_head() + payload@)
            }),
    {
        if payload.len() != SCHEME_PAYLOAD_V3 {
            return Err(LayoutError::Parse);
        }
        let m = scheme_magic();
        let mut bytes: Vec<u8> = Vec::new();
        bytes.push(m[0]);
        bytes.push(m[1]);
        bytes.push(m[2]);
        bytes.push(m[3]);
        bytes.push(3u8);
        let mut i: usize = 0;
        while i < payload.len()
            invariant
                0 <= i <= payload@.len(),
                bytes@ =~= scheme_head() + payload@.subrange(0, i as int),
            decreases payload@.len() - i,
        {
            bytes.push(payload[i]);
            i = i + 1;
        }
        assert(payload@.subrange(0, payload@.len() as int) =~= payload@);
        let ghost whole = scheme_head() + payload@;
        assert(bytes@ == whole);
        let r = Scheme::try_from(bytes.as_slice());
        assert(r == scheme_decode(whole));
        r
    }
}

/// The head of a written file: magic and version 3.
pub open spec fn scheme_head() -> Seq<u8> {
    spec_scheme_magic() + seq![3u8]
}


/// Every value of `SchemeOptions` fits its option layout.
pub proof fn lemma_scheme_options_typed_ok(o: SchemeOptions)
    ensures
        vals_ok(scheme_options_layout(), scheme_options_to_raw(o)),
{
    let x = o;
    let s = scheme_options_to_raw(x);
    assert forall|i: int| 0 <= i < 8 implies in_width(scheme_options_layout()[i], #[trigger] s[i] as int) && field_error(scheme_options_layout()[i], s[i] as int) is None by {}
    assert forall|i: int| 8 <= i < 16 implies in_width(scheme_options_layout()[i], #[trigger] s[i] as int) && field_error(scheme_options_layout()[i], s[i] as int) is None by {}
    assert forall|i: int| 16 <= i < 24 implies in_width(scheme_options_layout()[i], #[trigger] s[i] as int) && field_error(scheme_options_layout()[i], s[i] as int) is None by {}
    assert forall|i: int| 24 <= i < 32 implies in_width(scheme_options_layout()[i], #[trigger] s[i] as int) && field_error(scheme_options_layout()[i], s[i] as int) is None by {}
    assert forall|i: int| 32 <= i < 36 implies in_width(scheme_options_layout()[i], #[trigger] s[i] as int) && field_error(scheme_options_layout()[i], s[i] as int) is None by {}
}

/// Every value of `ExtendedOptions` fits the widths of its layout.
pub proof fn lemma_extended_options_typed_width(x0: ExtendedOptions)
    ensures
        forall|i: int| 0 <= i < 73 ==> in_width(extended_options_layout()[i], #[trigger] extended_options_to_raw(x0)[i] as int),
{
    let x = x0;
    let s = extended_options_to_raw(x);
    assert forall|i: int| 0 <= i < 8 implies in_width(extended_options_layout()[i], #[trigger] s[i] as int) by {}
    assert forall|i: int| 8 <= i < 16 implies in_width(extended_options_layout()[i], #[trigger] s[i] as int) by {}
    assert forall|i: int| 16 <= i < 24 implies in_width(extended_options_layout()[i], #[trigger] s[i] as int) by {}
    assert forall|i: int| 24 <= i < 32 implies in_width(extended_options_layout()[i], #[trigger] s[i] as int) by {}
    assert forall|i: int| 32 <= i < 40 implies in_width(extended_options_layout()[i], #[trigger] s[i] as int) by {}
    assert forall|i: int| 40 <= i < 48 implies in_width(extended_options_layout()[i], #[trigger] s[i] as int) by {}
    assert forall|i: int| 48 <= i < 56 implies in_width(extended_options_layout()[i], #[trigger] s[i] as int) by {}
    assert forall|i: int| 56 <= i < 64 implies in_width(extended_options_layout()[i], #[trigger] s[i] as int) by {}
    assert forall|i: int| 64 <= i < 72 implies in_width(extended_options_layout()[i], #[trigger] s[i] as int) by {}
    assert forall|i: int| 72 <= i < 73 implies in_width(extended_options_layout()[i], #[trigger] s[i] as int) by {}
}

/// The default extended options pass all checks.
pub proof fn lemma_extended_options_default_valid()
    ensures
        vals_ok(extended_options_layout(), extended_options_to_raw(extended_options_default())),
{
    let x = extended_options_default();
    let s = extended_options_to_raw(x);
    assert forall|i: int| 0 <= i < 8 implies in_width(extended_options_layout()[i], #[trigger] s[i] as int) && field_error(extended_options_layout()[i], s[i] as int) is None by {}
    assert forall|i: int| 8 <= i < 16 implies in_width(extended_options_layout()[i], #[trigger] s[i] as int) && field_error(extended_options_layout()[i], s[i] as int) is None by {}
    assert forall|i: int| 16 <= i < 24 implies in_width(extended_options_layout()[i], #[trigger] s[i] as int) && field_error(extended_options_layout()[i], s[i] as int) is None by {}
    assert forall|i: int| 24 <= i < 32 implies in_width(extended_options_layout()[i], #[trigger] s[i] as int) && field_error(extended_options_layout()[i], s[i] as int) is None by {}
    assert forall|i: int| 32 <= i < 40 implies in_width(extended_options_layout()[i], #[trigger] s[i] as int) && field_error(extended_options_layout()[i], s[i] as int) is None by {}
    assert forall|i: int| 40 <= i < 48 implies in_width(extended_options_layout()[i], #[trigger] s[i] as int) && field_error(extended_options_layout()[i], s[i] as int) is None by {}
    assert forall|i: int| 48 <= i < 56 implies in_width(extended_options_layout()[i], #[trigger] s[i] as int) && field_error(extended_options_layout()[i], s[i] as int) is None by {}
    assert forall|i: int| 56 <= i < 64 implies in_width(extended_options_layout()[i], #[trigger] s[i] as int) && field_error(extended_options_layout()[i], s[i] as int) is None by {}
    assert forall|i: int| 64 <= i < 72 implies in_width(extended_options_layout()[i], #[trigger] s[i] as int) && field_error(extended_options_layout()[i], s[i] as int) is None by {}
    assert forall|i: int| 72 <= i < 73 implies in_width(extended_options_layout()[i], #[trigger] s[i] as int) && field_error(extended_options_layout()[i], s[i] as int) is None by {}
}

} // verus!
