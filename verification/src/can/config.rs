//! Which identifiers the vehicle uses, and whether that is settled.
use vstd::prelude::*;

verus! {

/// The vehicle's kind of identifiers.
#[derive(Clone, Copy, Debug, PartialEq, Eq, Structural)]
pub struct ProtocolConfig {
    /// False for 11-bit identifiers, true for 29-bit ones.
    pub extended: bool,
    /// The kind was settled by a discovery.
    pub locked: bool,
}

impl ProtocolConfig {
    /// Nothing is settled; 11-bit identifiers are used meanwhile.
    pub fn new() -> (config: ProtocolConfig)
        ensures
            config == (ProtocolConfig { extended: false, locked: false }),
    {
        ProtocolConfig { extended: false, locked: false }
    }

    /// The configuration after an attempt to settle it.
    pub open spec fn settled(self, extended: bool) -> ProtocolConfig {
        if self.locked {
            self
        } else {
            ProtocolConfig { extended, locked: true }
        }
    }
}

/// Settles the kind of identifiers. Fails, and changes nothing, where it is settled already.
pub fn set_protocol(config: &mut ProtocolConfig, extended: bool) -> (r: Result<(), &'static str>)
    ensures
        *final(config) == old(config).settled(extended),
        r is Ok <==> !old(config).locked,
        r matches Err(message) ==> message@ == "Protocol already locked"@,
{
    if !config.locked {
        config.locked = true;
        config.extended = extended;
        Ok(())
    } else {
        Err("Protocol already locked")
    }
}

/// Opens the configuration for a new discovery. The kind in use stays until then.
pub fn reset_protocol(config: &mut ProtocolConfig)
    ensures
        *final(config) == (ProtocolConfig { locked: false, ..*old(config) }),
{
    config.locked = false;
}

/// Whether 29-bit identifiers are in use.
pub fn is_extended(config: &ProtocolConfig) -> (r: bool)
    ensures
        r == config.extended,
{
    config.extended
}

/// Of two attempts without a reset between them, the first decides.
pub proof fn law_first_setting_wins(config: ProtocolConfig, first: bool, second: bool)
    ensures
        config.settled(first).settled(second) == config.settled(first),
        !config.locked ==> config.settled(first).settled(second).extended == first,
{
}

/// What is settled stays; what is not becomes what was asked for.
pub proof fn law_settling(config: ProtocolConfig, extended: bool)
    ensures
        config.settled(extended).locked,
        config.locked ==> config.settled(extended).extended == config.extended,
        !config.locked ==> config.settled(extended).extended == extended,
{
}

} // verus!
