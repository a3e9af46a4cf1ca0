//! Vocabulary of haptic patterns: the events that patterns answer and the
//! integer parts of a pattern's shape.
use vstd::prelude::*;

verus! {

/// Shape of the intensity curve within one envelope stage.
#[derive(Debug, Clone, Copy, PartialEq, Eq, Structural)]
pub enum Curve {
    Linear,
    EaseIn,
    EaseOut,
    EaseInOut,
}

/// How often a pattern repeats and the pause between repetitions.
#[derive(Debug, Clone, Copy, PartialEq, Eq, Structural)]
pub struct BurstConfig {
    pub repeat_count: u32,
    pub pause_between_ms: u64,
}

/// Game events that haptic patterns respond to.
#[derive(Debug, Clone, PartialEq, Eq, Hash)]
pub enum GameEvent {
    // Hits and damage
    Hit,
    CriticalHit,
    PenetrationHit,
    Ricochet,
    HitCamera,
    // Engine
    EngineDestroyed,
    EngineDamaged,
    EngineOverheat,
    EngineFire,
    OilLeak,
    WaterLeak,
    // Crew
    CrewKnocked,
    PilotKnockedOut,
    GunnerKnockedOut,
    DriverKnockedOut,
    // Tank
    TrackBroken,
    TurretJammed,
    GunBreach,
    TransmissionDamaged,
    AmmunitionExploded,
    FuelTankHit,
    // Aircraft
    WingDamaged,
    TailDamaged,
    ElevatorDamaged,
    RudderDamaged,
    AileronDamaged,
    GearDamaged,
    FlapsDamaged,
    // Aircraft states
    Stall,
    Spin,
    FlatSpin,
    Overspeed,
    OverG,
    CompressorStall,
    EngineCompressorDamage,
    // Control
    GearUp,
    GearDown,
    GearStuck,
    FlapsExtended,
    FlapsRetracted,
    AirbrakeDeployed,
    ParachuteDeployed,
    // Combat actions
    Shooting,
    CannonFiring,
    MachineGunFiring,
    RocketLaunched,
    BombDropped,
    TorpedoDropped,
    // Continuous states
    EngineRunning,
    // Player hits
    TargetHit,
    TargetDestroyed,
    TargetCritical,
    AircraftDestroyed,
    TankDestroyed,
    ShipDestroyed,
    VehicleDestroyed,
    TargetSetOnFire,
    TargetSeverelyDamaged,
    // Fuel and ammo
    LowFuel,
    CriticalFuel,
    OutOfFuel,
    LowAmmo,
    OutOfAmmo,
    // Aerodynamics
    HighAOA,
    CriticalAOA,
    HighSlip,
    Mach1,
    // Control systems
    AutopilotEngaged,
    AutopilotDisengaged,
    TrimAdjusted,
    // Environment
    LowAltitude,
    CriticalAltitude,
    HighAltitude,
    Touchdown,
    Landed,
    Takeoff,
    Crashed,
    OilOverheated,
    // Crew and systems
    FireExtinguished,
    RepairCompleted,
    CrewReplenished,
    // Mission
    MissionStarted,
    MissionObjectiveCompleted,
    MissionFailed,
    MissionSuccess,
    Respawn,
    // Multiplayer
    TeamKill,
    Assist,
    BaseCapture,
    FirstStrike,
    ShipRescuer,
    PlayerDisconnected,
    // HUD events
    EnemySetAfire,
    TakingDamage,
    SeverelyDamaged,
    ShotDown,
    Achievement,
    ChatMessage,
    EnemyChatMessage,
    TeamChatMessage,
    AllChatMessage,
    SquadChatMessage,
    // Custom triggers
    CustomTrigger(String),
    UserTriggered,
}

} // verus!
