//! Weapon identifiers and the fire-dispatch discriminants of the weapon
//! table.
use vstd::prelude::*;

verus! {

/// Number of weapon identifiers (0 to 70).
pub const WEAPON_COUNT: u32 = 71;

/// Weapon types. Contiguous range 0-70.
///
/// Source: wkJellyWorm Constants.h
#[derive(Debug, Clone, Copy, PartialEq, Eq, Hash, PartialOrd, Structural)]
pub enum Weapon {
    NoWeapon,
    Bazooka,
    HomingMissile,
    Mortar,
    HomingPigeon,
    SheepLauncher,
    Grenade,
    ClusterBomb,
    BananaBomb,
    BattleAxe,
    Earthquake,
    Shotgun,
    Handgun,
    Uzi,
    Minigun,
    Longbow,
    FirePunch,
    DragonBall,
    Kamikaze,
    SuicideBomber,
    Prod,
    Dynamite,
    Mine,
    Sheep,
    SuperSheep,
    AquaSheep,
    MoleBomb,
    AirStrike,
    NapalmStrike,
    MailStrike,
    MineStrike,
    MoleSquadron,
    BlowTorch,
    PneumaticDrill,
    Girder,
    BaseballBat,
    GirderPack,
    NinjaRope,
    Bungee,
    Parachute,
    Teleport,
    ScalesOfJustice,
    SuperBanana,
    HolyGrenade,
    FlameThrower,
    SalvationArmy,
    MbBomb,
    PetrolBomb,
    Skunk,
    MingVase,
    SheepStrike,
    CarpetBomb,
    MadCow,
    OldWoman,
    Donkey,
    NuclearTest,
    Armageddon,
    SkipGo,
    Surrender,
    SelectWorm,
    Freeze,
    MagicBullet,
    JetPack,
    LowGravity,
    FastWalk,
    LaserSight,
    Invisibility,
    DamageX2,
    CrateSpy,
    DoubleTurnTime,
    CrateShower,
}

/// The numeric code of each `Weapon`.
pub open spec fn weapon_code(x: Weapon) -> u32 {
    match x {
        Weapon::NoWeapon => 0u32,
        Weapon::Bazooka => 1u32,
        Weapon::HomingMissile => 2u32,
        Weapon::Mortar => 3u32,
        Weapon::HomingPigeon => 4u32,
        Weapon::SheepLauncher => 5u32,
        Weapon::Grenade => 6u32,
        Weapon::ClusterBomb => 7u32,
        Weapon::BananaBomb => 8u32,
        Weapon::BattleAxe => 9u32,
        Weapon::Earthquake => 10u32,
        Weapon::Shotgun => 11u32,
        Weapon::Handgun => 12u32,
        Weapon::Uzi => 13u32,
        Weapon::Minigun => 14u32,
        Weapon::Longbow => 15u32,
        Weapon::FirePunch => 16u32,
        Weapon::DragonBall => 17u32,
        Weapon::Kamikaze => 18u32,
        Weapon::SuicideBomber => 19u32,
        Weapon::Prod => 20u32,
        Weapon::Dynamite => 21u32,
        Weapon::Mine => 22u32,
        Weapon::Sheep => 23u32,
        Weapon::SuperSheep => 24u32,
        Weapon::AquaSheep => 25u32,
        Weapon::MoleBomb => 26u32,
        Weapon::AirStrike => 27u32,
        Weapon::NapalmStrike => 28u32,
        Weapon::MailStrike => 29u32,
        Weapon::MineStrike => 30u32,
        Weapon::MoleSquadron => 31u32,
        Weapon::BlowTorch => 32u32,
        Weapon::PneumaticDrill => 33u32,
        Weapon::Girder => 34u32,
        Weapon::BaseballBat => 35u32,
        Weapon::GirderPack => 36u32,
        Weapon::NinjaRope => 37u32,
        Weapon::Bungee => 38u32,
        Weapon::Parachute => 39u32,
        Weapon::Teleport => 40u32,
        Weapon::ScalesOfJustice => 41u32,
        Weapon::SuperBanana => 42u32,
        Weapon::HolyGrenade => 43u32,
        Weapon::FlameThrower => 44u32,
        Weapon::SalvationArmy => 45u32,
        Weapon::MbBomb => 46u32,
        Weapon::PetrolBomb => 47u32,
        Weapon::Skunk => 48u32,
        Weapon::MingVase => 49u32,
        Weapon::SheepStrike => 50u32,
        Weapon::CarpetBomb => 51u32,
        Weapon::MadCow => 52u32,
        Weapon::OldWoman => 53u32,
        Weapon::Donkey => 54u32,
        Weapon::NuclearTest => 55u32,
        Weapon::Armageddon => 56u32,
        Weapon::SkipGo => 57u32,
        Weapon::Surrender => 58u32,
        Weapon::SelectWorm => 59u32,
        Weapon::Freeze => 60u32,
        Weapon::MagicBullet => 61u32,
        Weapon::JetPack => 62u32,
        Weapon::LowGravity => 63u32,
        Weapon::FastWalk => 64u32,
        Weapon::LaserSight => 65u32,
        Weapon::Invisibility => 66u32,
        Weapon::DamageX2 => 67u32,
        Weapon::CrateSpy => 68u32,
        Weapon::DoubleTurnTime => 69u32,
        Weapon::CrateShower => 70u32,
    }
}

/// Whether `v` is the code of some `Weapon`.
pub open spec fn weapon_is_code(v: u32) -> bool {
    v < WEAPON_COUNT
}

/// The `Weapon` with code `v` (meaningful where `weapon_is_code(v)`).
pub open spec fn weapon_of_code(v: u32) -> Weapon {
    if v == 0u32 { Weapon::NoWeapon } else 
    if v == 1u32 { Weapon::Bazooka } else 
    if v == 2u32 { Weapon::HomingMissile } else 
    if v == 3u32 { Weapon::Mortar } else 
    if v == 4u32 { Weapon::HomingPigeon } else 
    if v == 5u32 { Weapon::SheepLauncher } else 
    if v == 6u32 { Weapon::Grenade } else 
    if v == 7u32 { Weapon::ClusterBomb } else 
    if v == 8u32 { Weapon::BananaBomb } else 
    if v == 9u32 { Weapon::BattleAxe } else 
    if v == 10u32 { Weapon::Earthquake } else 
    if v == 11u32 { Weapon::Shotgun } else 
    if v == 12u32 { Weapon::Handgun } else 
    if v == 13u32 { Weapon::Uzi } else 
    if v == 14u32 { Weapon::Minigun } else 
    if v == 15u32 { Weapon::Longbow } else 
    if v == 16u32 { Weapon::FirePunch } else 
    if v == 17u32 { Weapon::DragonBall } else 
    if v == 18u32 { Weapon::Kamikaze } else 
    if v == 19u32 { Weapon::SuicideBomber } else 
    if v == 20u32 { Weapon::Prod } else 
    if v == 21u32 { Weapon::Dynamite } else 
    if v == 22u32 { Weapon::Mine } else 
    if v == 23u32 { Weapon::Sheep } else 
    if v == 24u32 { Weapon::SuperSheep } else 
    if v == 25u32 { Weapon::AquaSheep } else 
    if v == 26u32 { Weapon::MoleBomb } else 
    if v == 27u32 { Weapon::AirStrike } else 
    if v == 28u32 { Weapon::NapalmStrike } else 
    if v == 29u32 { Weapon::MailStrike } else 
    if v == 30u32 { Weapon::MineStrike } else 
    if v == 31u32 { Weapon::MoleSquadron } else 
    if v == 32u32 { Weapon::BlowTorch } else 
    if v == 33u32 { Weapon::PneumaticDrill } else 
    if v == 34u32 { Weapon::Girder } else 
    if v == 35u32 { Weapon::BaseballBat } else 
    if v == 36u32 { Weapon::GirderPack } else 
    if v == 37u32 { Weapon::NinjaRope } else 
    if v == 38u32 { Weapon::Bungee } else 
    if v == 39u32 { Weapon::Parachute } else 
    if v == 40u32 { Weapon::Teleport } else 
    if v == 41u32 { Weapon::ScalesOfJustice } else 
    if v == 42u32 { Weapon::SuperBanana } else 
    if v == 43u32 { Weapon::HolyGrenade } else 
    if v == 44u32 { Weapon::FlameThrower } else 
    if v == 45u32 { Weapon::SalvationArmy } else 
    if v == 46u32 { Weapon::MbBomb } else 
    if v == 47u32 { Weapon::PetrolBomb } else 
    if v == 48u32 { Weapon::Skunk } else 
    if v == 49u32 { Weapon::MingVase } else 
    if v == 50u32 { Weapon::SheepStrike } else 
    if v == 51u32 { Weapon::CarpetBomb } else 
    if v == 52u32 { Weapon::MadCow } else 
    if v == 53u32 { Weapon::OldWoman } else 
    if v == 54u32 { Weapon::Donkey } else 
    if v == 55u32 { Weapon::NuclearTest } else 
    if v == 56u32 { Weapon::Armageddon } else 
    if v == 57u32 { Weapon::SkipGo } else 
    if v == 58u32 { Weapon::Surrender } else 
    if v == 59u32 { Weapon::SelectWorm } else 
    if v == 60u32 { Weapon::Freeze } else 
    if v == 61u32 { Weapon::MagicBullet } else 
    if v == 62u32 { Weapon::JetPack } else 
    if v == 63u32 { Weapon::LowGravity } else 
    if v == 64u32 { Weapon::FastWalk } else 
    if v == 65u32 { Weapon::LaserSight } else 
    if v == 66u32 { Weapon::Invisibility } else 
    if v == 67u32 { Weapon::DamageX2 } else 
    if v == 68u32 { Weapon::CrateSpy } else 
    if v == 69u32 { Weapon::DoubleTurnTime } else 
    { Weapon::CrateShower }
}

impl Weapon {
    /// Numeric code.
    pub fn code(self) -> (r: u32)
        ensures
            r == weapon_code(self),
    {
        match self {
            Weapon::NoWeapon => 0,
            Weapon::Bazooka => 1,
            Weapon::HomingMissile => 2,
            Weapon::Mortar => 3,
            Weapon::HomingPigeon => 4,
            Weapon::SheepLauncher => 5,
            Weapon::Grenade => 6,
            Weapon::ClusterBomb => 7,
            Weapon::BananaBomb => 8,
            Weapon::BattleAxe => 9,
            Weapon::Earthquake => 10,
            Weapon::Shotgun => 11,
            Weapon::Handgun => 12,
            Weapon::Uzi => 13,
            Weapon::Minigun => 14,
            Weapon::Longbow => 15,
            Weapon::FirePunch => 16,
            Weapon::DragonBall => 17,
            Weapon::Kamikaze => 18,
            Weapon::SuicideBomber => 19,
            Weapon::Prod => 20,
            Weapon::Dynamite => 21,
            Weapon::Mine => 22,
            Weapon::Sheep => 23,
            Weapon::SuperSheep => 24,
            Weapon::AquaSheep => 25,
            Weapon::MoleBomb => 26,
            Weapon::AirStrike => 27,
            Weapon::NapalmStrike => 28,
            Weapon::MailStrike => 29,
            Weapon::MineStrike => 30,
            Weapon::MoleSquadron => 31,
            Weapon::BlowTorch => 32,
            Weapon::PneumaticDrill => 33,
            Weapon::Girder => 34,
            Weapon::BaseballBat => 35,
            Weapon::GirderPack => 36,
            Weapon::NinjaRope => 37,
            Weapon::Bungee => 38,
            Weapon::Parachute => 39,
            Weapon::Teleport => 40,
            Weapon::ScalesOfJustice => 41,
            Weapon::SuperBanana => 42,
            Weapon::HolyGrenade => 43,
            Weapon::FlameThrower => 44,
            Weapon::SalvationArmy => 45,
            Weapon::MbBomb => 46,
            Weapon::PetrolBomb => 47,
            Weapon::Skunk => 48,
            Weapon::MingVase => 49,
            Weapon::SheepStrike => 50,
            Weapon::CarpetBomb => 51,
            Weapon::MadCow => 52,
            Weapon::OldWoman => 53,
            Weapon::Donkey => 54,
            Weapon::NuclearTest => 55,
            Weapon::Armageddon => 56,
            Weapon::SkipGo => 57,
            Weapon::Surrender => 58,
            Weapon::SelectWorm => 59,
            Weapon::Freeze => 60,
            Weapon::MagicBullet => 61,
            Weapon::JetPack => 62,
            Weapon::LowGravity => 63,
            Weapon::FastWalk => 64,
            Weapon::LaserSight => 65,
            Weapon::Invisibility => 66,
            Weapon::DamageX2 => 67,
            Weapon::CrateSpy => 68,
            Weapon::DoubleTurnTime => 69,
            Weapon::CrateShower => 70,
        }
    }

    /// The `Weapon` with code `v`, or `v` back if no variant has it.
    pub fn try_from(v: u32) -> (r: Result<Weapon, u32>)
        ensures
            r == (if weapon_is_code(v) { Ok(weapon_of_code(v)) } else { Err(v) }),
    {
        match v {
            0 => Ok(Weapon::NoWeapon),
            1 => Ok(Weapon::Bazooka),
            2 => Ok(Weapon::HomingMissile),
            3 => Ok(Weapon::Mortar),
            4 => Ok(Weapon::HomingPigeon),
            5 => Ok(Weapon::SheepLauncher),
            6 => Ok(Weapon::Grenade),
            7 => Ok(Weapon::ClusterBomb),
            8 => Ok(Weapon::BananaBomb),
            9 => Ok(Weapon::BattleAxe),
            10 => Ok(Weapon::Earthquake),
            11 => Ok(Weapon::Shotgun),
            12 => Ok(Weapon::Handgun),
            13 => Ok(Weapon::Uzi),
            14 => Ok(Weapon::Minigun),
            15 => Ok(Weapon::Longbow),
            16 => Ok(Weapon::FirePunch),
            17 => Ok(Weapon::DragonBall),
            18 => Ok(Weapon::Kamikaze),
            19 => Ok(Weapon::SuicideBomber),
            20 => Ok(Weapon::Prod),
            21 => Ok(Weapon::Dynamite),
            22 => Ok(Weapon::Mine),
            23 => Ok(Weapon::Sheep),
            24 => Ok(Weapon::SuperSheep),
            25 => Ok(Weapon::AquaSheep),
            26 => Ok(Weapon::MoleBomb),
            27 => Ok(Weapon::AirStrike),
            28 => Ok(Weapon::NapalmStrike),
            29 => Ok(Weapon::MailStrike),
            30 => Ok(Weapon::MineStrike),
            31 => Ok(Weapon::MoleSquadron),
            32 => Ok(Weapon::BlowTorch),
            33 => Ok(Weapon::PneumaticDrill),
            34 => Ok(Weapon::Girder),
            35 => Ok(Weapon::BaseballBat),
            36 => Ok(Weapon::GirderPack),
            37 => Ok(Weapon::NinjaRope),
            38 => Ok(Weapon::Bungee),
            39 => Ok(Weapon::Parachute),
            40 => Ok(Weapon::Teleport),
            41 => Ok(Weapon::ScalesOfJustice),
            42 => Ok(Weapon::SuperBanana),
            43 => Ok(Weapon::HolyGrenade),
            44 => Ok(Weapon::FlameThrower),
            45 => Ok(Weapon::SalvationArmy),
            46 => Ok(Weapon::MbBomb),
            47 => Ok(Weapon::PetrolBomb),
            48 => Ok(Weapon::Skunk),
            49 => Ok(Weapon::MingVase),
            50 => Ok(Weapon::SheepStrike),
            51 => Ok(Weapon::CarpetBomb),
            52 => Ok(Weapon::MadCow),
            53 => Ok(Weapon::OldWoman),
            54 => Ok(Weapon::Donkey),
            55 => Ok(Weapon::NuclearTest),
            56 => Ok(Weapon::Armageddon),
            57 => Ok(Weapon::SkipGo),
            58 => Ok(Weapon::Surrender),
            59 => Ok(Weapon::SelectWorm),
            60 => Ok(Weapon::Freeze),
            61 => Ok(Weapon::MagicBullet),
            62 => Ok(Weapon::JetPack),
            63 => Ok(Weapon::LowGravity),
            64 => Ok(Weapon::FastWalk),
            65 => Ok(Weapon::LaserSight),
            66 => Ok(Weapon::Invisibility),
            67 => Ok(Weapon::DamageX2),
            68 => Ok(Weapon::CrateSpy),
            69 => Ok(Weapon::DoubleTurnTime),
            70 => Ok(Weapon::CrateShower),
            _ => Err(v),
        }
    }
}

/// Decoding the code of a `Weapon` gives it back.
pub proof fn lemma_weapon_code_roundtrip(x: Weapon)
    ensures
        weapon_is_code(weapon_code(x)),
        weapon_of_code(weapon_code(x)) == x,
{
}

/// Top-level weapon fire type (WeaponEntry+0x30).
///
/// Determines which sub-function handles the weapon fire in FireWeapon dispatch.
#[derive(Debug, Clone, Copy, PartialEq, Eq, Hash, Structural)]
pub enum FireType {
    /// Projectile weapons (Bazooka, Grenade, Shotgun, etc.).
    /// Sub-dispatched by `fire_method`.
    Projectile,
    /// Rope-based weapons (Ninja Rope, Bungee).
    /// Sub-dispatched by `fire_method`.
    Rope,
    /// Strike weapons (Air Strike, Napalm Strike, Mail Strike, etc.).
    /// Uses `special_subtype` as parameter data (not a subtype selector).
    Strike,
    /// Special weapons (melee, utility, powerups).
    /// Sub-dispatched by `special_subtype`.
    Special,
}

/// The numeric code of each `FireType`.
pub open spec fn fire_type_code(x: FireType) -> i32 {
    match x {
        FireType::Projectile => 1i32,
        FireType::Rope => 2i32,
        FireType::Strike => 3i32,
        FireType::Special => 4i32,
    }
}

/// Whether `v` is the code of some `FireType`.
pub open spec fn fire_type_is_code(v: i32) -> bool {
    v == 1i32 || v == 2i32 || v == 3i32 || v == 4i32
}

/// The `FireType` with code `v` (meaningful where `fire_type_is_code(v)`).
pub open spec fn fire_type_of_code(v: i32) -> FireType {
    if v == 1i32 { FireType::Projectile } else 
    if v == 2i32 { FireType::Rope } else 
    if v == 3i32 { FireType::Strike } else 
    { FireType::Special }
}

impl FireType {
    /// Numeric code.
    pub fn code(self) -> (r: i32)
        ensures
            r == fire_type_code(self),
    {
        match self {
            FireType::Projectile => 1,
            FireType::Rope => 2,
            FireType::Strike => 3,
            FireType::Special => 4,
        }
    }

    /// The `FireType` with code `v`, or `v` back if no variant has it.
    pub fn try_from(v: i32) -> (r: Result<FireType, i32>)
        ensures
            r == (if fire_type_is_code(v) { Ok(fire_type_of_code(v)) } else { Err(v) }),
    {
        match v {
            1 => Ok(FireType::Projectile),
            2 => Ok(FireType::Rope),
            3 => Ok(FireType::Strike),
            4 => Ok(FireType::Special),
            _ => Err(v),
        }
    }
}

/// Decoding the code of a `FireType` gives it back.
pub proof fn lemma_fire_type_code_roundtrip(x: FireType)
    ensures
        fire_type_is_code(fire_type_code(x)),
        fire_type_of_code(fire_type_code(x)) == x,
{
}

/// Fire method for projectile (type 1) and rope (type 2) weapons (WeaponEntry+0x38).
///
/// Selects which sub-function creates the projectile or rope entity.
#[derive(Debug, Clone, Copy, PartialEq, Eq, Hash, Structural)]
pub enum FireMethod {
    /// PlacedExplosive: usercall, places mine/dynamite at worm position.
    PlacedExplosive,
    /// ProjectileFire: stdcall, fires projectile with spread/rotation.
    ProjectileFire,
    /// CreateWeaponProjectile: thiscall, allocates CTaskMissile.
    CreateWeaponProjectile,
    /// CreateArrow: thiscall, allocates CTaskArrow (Shotgun, Longbow).
    CreateArrow,
}

/// The numeric code of each `FireMethod`.
pub open spec fn fire_method_code(x: FireMethod) -> i32 {
    match x {
        FireMethod::PlacedExplosive => 1i32,
        FireMethod::ProjectileFire => 2i32,
        FireMethod::CreateWeaponProjectile => 3i32,
        FireMethod::CreateArrow => 4i32,
    }
}

/// Whether `v` is the code of some `FireMethod`.
pub open spec fn fire_method_is_code(v: i32) -> bool {
    v == 1i32 || v == 2i32 || v == 3i32 || v == 4i32
}

/// The `FireMethod` with code `v` (meaningful where `fire_method_is_code(v)`).
pub open spec fn fire_method_of_code(v: i32) -> FireMethod {
    if v == 1i32 { FireMethod::PlacedExplosive } else 
    if v == 2i32 { FireMethod::ProjectileFire } else 
    if v == 3i32 { FireMethod::CreateWeaponProjectile } else 
    { FireMethod::CreateArrow }
}

impl FireMethod {
    /// Numeric code.
    pub fn code(self) -> (r: i32)
        ensures
            r == fire_method_code(self),
    {
        match self {
            FireMethod::PlacedExplosive => 1,
            FireMethod::ProjectileFire => 2,
            FireMethod::CreateWeaponProjectile => 3,
            FireMethod::CreateArrow => 4,
        }
    }

    /// The `FireMethod` with code `v`, or `v` back if no variant has it.
    pub fn try_from(v: i32) -> (r: Result<FireMethod, i32>)
        ensures
            r == (if fire_method_is_code(v) { Ok(fire_method_of_code(v)) } else { Err(v) }),
    {
        match v {
            1 => Ok(FireMethod::PlacedExplosive),
            2 => Ok(FireMethod::ProjectileFire),
            3 => Ok(FireMethod::CreateWeaponProjectile),
            4 => Ok(FireMethod::CreateArrow),
            _ => Err(v),
        }
    }
}

/// Decoding the code of a `FireMethod` gives it back.
pub proof fn lemma_fire_method_code_roundtrip(x: FireMethod)
    ensures
        fire_method_is_code(fire_method_code(x)),
        fire_method_of_code(fire_method_code(x)) == x,
{
}

/// Special weapon subtype — the raw `sub34` value from the weapon table,
/// used directly as the switch discriminant in FireWeapon (0x51EE60) case 4.
/// Names are based on confirmed weapon->sub34 mappings from replay test logs.
#[derive(Debug, Clone, Copy, PartialEq, Eq, Hash, Structural)]
pub enum SpecialFireSubtype {
    /// FirePunch weapon (id=16, sub34=1).
    FirePunch,
    /// BaseballBat weapon (id=35, sub34=2). Handler calls PneumaticDrill/SpecialImpact logic.
    BaseballBat,
    /// DragonBall weapon (id=17, sub34=3). Handler allocates CTaskGirder.
    DragonBall,
    /// Kamikaze weapon (id=18, sub34=4).
    Kamikaze,
    /// SuicideBomber weapon (id=19, sub34=5).
    SuicideBomber,
    /// Unknown — no weapon observed using sub34=6 in replay tests.
    Unknown6,
    /// PneumaticDrill weapon (id=33, sub34=8).
    PneumaticDrill,
    Prod,
    /// Teleport weapon (id=40, sub34=10).
    Teleport,
    /// Blowtorch weapon (id=32, sub34=11).
    Blowtorch,
    /// Parachute weapon (id=39, sub34=12).
    Parachute,
    /// Surrender weapon (id=58, sub34=13). Sends message 0x2B (TaskMessage::Surrender).
    Surrender,
    MailMineMole,
    /// NuclearTest weapon (id=55, sub34=16).
    NuclearTest,
    /// Girder/GirderPack weapons (id=34/36, sub34=17).
    Girder,
    /// Unknown — no weapon observed using sub34=18 in replay tests.
    Unknown18,
    SkipGo,
    /// Freeze weapon (id=60, sub34=20). Sends message 0x29 (TaskMessage::Freeze).
    Freeze,
    SelectWorm,
    /// ScalesOfJustice weapon (id=41, sub34=22).
    ScalesOfJustice,
    /// JetPack weapon (id=62, sub34=23).
    JetPack,
    /// Armageddon weapon (id=56, sub34=24).
    Armageddon,
}

/// The numeric code of each `SpecialFireSubtype`.
pub open spec fn special_subtype_code(x: SpecialFireSubtype) -> i32 {
    match x {
        SpecialFireSubtype::FirePunch => 1i32,
        SpecialFireSubtype::BaseballBat => 2i32,
        SpecialFireSubtype::DragonBall => 3i32,
        SpecialFireSubtype::Kamikaze => 4i32,
        SpecialFireSubtype::SuicideBomber => 5i32,
        SpecialFireSubtype::Unknown6 => 6i32,
        SpecialFireSubtype::PneumaticDrill => 8i32,
        SpecialFireSubtype::Prod => 9i32,
        SpecialFireSubtype::Teleport => 10i32,
        SpecialFireSubtype::Blowtorch => 11i32,
        SpecialFireSubtype::Parachute => 12i32,
        SpecialFireSubtype::Surrender => 13i32,
        SpecialFireSubtype::MailMineMole => 14i32,
        SpecialFireSubtype::NuclearTest => 16i32,
        SpecialFireSubtype::Girder => 17i32,
        SpecialFireSubtype::Unknown18 => 18i32,
        SpecialFireSubtype::SkipGo => 19i32,
        SpecialFireSubtype::Freeze => 20i32,
        SpecialFireSubtype::SelectWorm => 21i32,
        SpecialFireSubtype::ScalesOfJustice => 22i32,
        SpecialFireSubtype::JetPack => 23i32,
        SpecialFireSubtype::Armageddon => 24i32,
    }
}

/// Whether `v` is the code of some `SpecialFireSubtype`.
pub open spec fn special_subtype_is_code(v: i32) -> bool {
    v == 1i32 || v == 2i32 || v == 3i32 || v == 4i32 || v == 5i32 || v == 6i32 || v == 8i32 || v == 9i32 || v == 10i32 || v == 11i32 || v == 12i32 || v == 13i32 || v == 14i32 || v == 16i32 || v == 17i32 || v == 18i32 || v == 19i32 || v == 20i32 || v == 21i32 || v == 22i32 || v == 23i32 || v == 24i32
}

/// The `SpecialFireSubtype` with code `v` (meaningful where `special_subtype_is_code(v)`).
pub open spec fn special_subtype_of_code(v: i32) -> SpecialFireSubtype {
    if v == 1i32 { SpecialFireSubtype::FirePunch } else 
    if v == 2i32 { SpecialFireSubtype::BaseballBat } else 
    if v == 3i32 { SpecialFireSubtype::DragonBall } else 
    if v == 4i32 { SpecialFireSubtype::Kamikaze } else 
    if v == 5i32 { SpecialFireSubtype::SuicideBomber } else 
    if v == 6i32 { SpecialFireSubtype::Unknown6 } else 
    if v == 8i32 { SpecialFireSubtype::PneumaticDrill } else 
    if v == 9i32 { SpecialFireSubtype::Prod } else 
    if v == 10i32 { SpecialFireSubtype::Teleport } else 
    if v == 11i32 { SpecialFireSubtype::Blowtorch } else 
    if v == 12i32 { SpecialFireSubtype::Parachute } else 
    if v == 13i32 { SpecialFireSubtype::Surrender } else 
    if v == 14i32 { SpecialFireSubtype::MailMineMole } else 
    if v == 16i32 { SpecialFireSubtype::NuclearTest } else 
    if v == 17i32 { SpecialFireSubtype::Girder } else 
    if v == 18i32 { SpecialFireSubtype::Unknown18 } else 
    if v == 19i32 { SpecialFireSubtype::SkipGo } else 
    if v == 20i32 { SpecialFireSubtype::Freeze } else 
    if v == 21i32 { SpecialFireSubtype::SelectWorm } else 
    if v == 22i32 { SpecialFireSubtype::ScalesOfJustice } else 
    if v == 23i32 { SpecialFireSubtype::JetPack } else 
    { SpecialFireSubtype::Armageddon }
}

impl SpecialFireSubtype {
    /// Numeric code.
    pub fn code(self) -> (r: i32)
        ensures
            r == special_subtype_code(self),
    {
        match self {
            SpecialFireSubtype::FirePunch => 1,
            SpecialFireSubtype::BaseballBat => 2,
            SpecialFireSubtype::DragonBall => 3,
            SpecialFireSubtype::Kamikaze => 4,
            SpecialFireSubtype::SuicideBomber => 5,
            SpecialFireSubtype::Unknown6 => 6,
            SpecialFireSubtype::PneumaticDrill => 8,
            SpecialFireSubtype::Prod => 9,
            SpecialFireSubtype::Teleport => 10,
            SpecialFireSubtype::Blowtorch => 11,
            SpecialFireSubtype::Parachute => 12,
            SpecialFireSubtype::Surrender => 13,
            SpecialFireSubtype::MailMineMole => 14,
            SpecialFireSubtype::NuclearTest => 16,
            SpecialFireSubtype::Girder => 17,
            SpecialFireSubtype::Unknown18 => 18,
            SpecialFireSubtype::SkipGo => 19,
            SpecialFireSubtype::Freeze => 20,
            SpecialFireSubtype::SelectWorm => 21,
            SpecialFireSubtype::ScalesOfJustice => 22,
            SpecialFireSubtype::JetPack => 23,
            SpecialFireSubtype::Armageddon => 24,
        }
    }

    /// The `SpecialFireSubtype` with code `v`, or `v` back if no variant has it.
    pub fn try_from(v: i32) -> (r: Result<SpecialFireSubtype, i32>)
        ensures
            r == (if special_subtype_is_code(v) { Ok(special_subtype_of_code(v)) } else { Err(v) }),
    {
        match v {
            1 => Ok(SpecialFireSubtype::FirePunch),
            2 => Ok(SpecialFireSubtype::BaseballBat),
            3 => Ok(SpecialFireSubtype::DragonBall),
            4 => Ok(SpecialFireSubtype::Kamikaze),
            5 => Ok(SpecialFireSubtype::SuicideBomber),
            6 => Ok(SpecialFireSubtype::Unknown6),
            8 => Ok(SpecialFireSubtype::PneumaticDrill),
            9 => Ok(SpecialFireSubtype::Prod),
            10 => Ok(SpecialFireSubtype::Teleport),
            11 => Ok(SpecialFireSubtype::Blowtorch),
            12 => Ok(SpecialFireSubtype::Parachute),
            13 => Ok(SpecialFireSubtype::Surrender),
            14 => Ok(SpecialFireSubtype::MailMineMole),
            16 => Ok(SpecialFireSubtype::NuclearTest),
            17 => Ok(SpecialFireSubtype::Girder),
            18 => Ok(SpecialFireSubtype::Unknown18),
            19 => Ok(SpecialFireSubtype::SkipGo),
            20 => Ok(SpecialFireSubtype::Freeze),
            21 => Ok(SpecialFireSubtype::SelectWorm),
            22 => Ok(SpecialFireSubtype::ScalesOfJustice),
            23 => Ok(SpecialFireSubtype::JetPack),
            24 => Ok(SpecialFireSubtype::Armageddon),
            _ => Err(v),
        }
    }
}

/// Decoding the code of a `SpecialFireSubtype` gives it back.
pub proof fn lemma_special_subtype_code_roundtrip(x: SpecialFireSubtype)
    ensures
        special_subtype_is_code(special_subtype_code(x)),
        special_subtype_of_code(special_subtype_code(x)) == x,
{
}

} // verus!
