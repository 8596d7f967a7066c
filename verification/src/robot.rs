//! Team numbers, robot addresses and the tags of the robot's system API.

use vstd::prelude::*;

verus! {

/// A team number and where it comes from.
#[derive(Clone, Copy, Debug, PartialEq, Eq, Structural)]
pub enum TeamNumbers {
    /// Team number of the user.
    Main { team_number: u16 },
    /// A team number that is supported often.
    Alternate { priority: u8, team_number: u16 },
    /// A team number for the current session only.
    Temporary { priority: u8, team_number: u16 },
}

impl TeamNumbers {
    /// The team number, whatever its kind.
    pub open spec fn number(self) -> u16 {
        match self {
            TeamNumbers::Main { team_number } => team_number,
            TeamNumbers::Alternate { team_number, .. } => team_number,
            TeamNumbers::Temporary { team_number, .. } => team_number,
        }
    }

    /// The team number, whatever its kind.
    pub fn get_team_number(&self) -> (n: u16)
        ensures
            n == self.number(),
    {
        match self {
            TeamNumbers::Main { team_number } => *team_number,
            TeamNumbers::Alternate { team_number, .. } => *team_number,
            TeamNumbers::Temporary { team_number, .. } => *team_number,
        }
    }
}

/// The address of a team's robot controller, 10.TE.AM.2: the last two
/// digits of the team number are AM and the digits before them TE. `None`
/// where TE would not fit into a byte.
pub fn ip_from_team_number(team: u16) -> (ip: Option<[u8; 4]>)
    ensures
        team / 100 <= 255 ==> ip.is_some() && ip.unwrap()@ == seq![
            10u8,
            (team / 100) as u8,
            (team % 100) as u8,
            2u8,
        ],
        team / 100 > 255 ==> ip.is_none(),
{
    let te = team / 100;
    let am = team % 100;
    if te <= 255 {
        let ip: [u8; 4] = [10, te as u8, am as u8, 2];
        assert(ip@ =~= seq![10u8, (team / 100) as u8, (team % 100) as u8, 2u8]);
        Some(ip)
    } else {
        None
    }
}

/// The tags of a device's properties.
#[derive(Clone, Copy, Debug, PartialEq, Eq, Structural)]
pub enum DeviceTags {
    Serial,
    UserName,
    Model,
    Firmware,
    Os,
    ImageVersion,
}

impl DeviceTags {
    /// The number of the tag in the system API.
    pub open spec fn code_of(self) -> u32 {
        match self {
            DeviceTags::Serial => 16805888,
            DeviceTags::UserName => 16904192,
            DeviceTags::Model => 16801792,
            DeviceTags::Firmware => 16969728,
            DeviceTags::Os => 17104896,
            DeviceTags::ImageVersion => 219529216,
        }
    }

    /// The number of the tag in the system API.
    pub fn code(&self) -> (c: u32)
        ensures
            c == self.code_of(),
    {
        match self {
            DeviceTags::Serial => 16805888,
            DeviceTags::UserName => 16904192,
            DeviceTags::Model => 16801792,
            DeviceTags::Firmware => 16969728,
            DeviceTags::Os => 17104896,
            DeviceTags::ImageVersion => 219529216,
        }
    }

    /// The tag with that number.
    pub fn from_code(c: u32) -> (t: Option<DeviceTags>)
        ensures
            t.is_some() <==> exists|d: DeviceTags| d.code_of() == c,
            t.is_some() ==> t.unwrap().code_of() == c,
    {
        let t = if c == 16805888 {
            Some(DeviceTags::Serial)
        } else if c == 16904192 {
            Some(DeviceTags::UserName)
        } else if c == 16801792 {
            Some(DeviceTags::Model)
        } else if c == 16969728 {
            Some(DeviceTags::Firmware)
        } else if c == 17104896 {
            Some(DeviceTags::Os)
        } else if c == 219529216 {
            Some(DeviceTags::ImageVersion)
        } else {
            None
        };
        proof {
            if t.is_some() {
                assert(t.unwrap().code_of() == c);
            }
        }
        t
    }
}

/// The tags of a device's resources.
#[derive(Clone, Copy, Debug, PartialEq, Eq, Structural)]
pub enum ResourceTags {
    Temp,
    CpuLoad1,
    CpuLoad2,
    CpuSpeed1,
    CpuSpeed2,
    RamTotal,
    RamFree,
    VirtRamTotal,
    VirtRamFree,
    DiskTotal,
    DiskFree,
}

impl ResourceTags {
    /// The number of the tag in the system API.
    pub open spec fn code_of(self) -> u32 {
        match self {
            ResourceTags::Temp => 16965632,
            ResourceTags::CpuLoad1 => 17141760,
            ResourceTags::CpuLoad2 => 17141761,
            ResourceTags::CpuSpeed1 => 17309696,
            ResourceTags::CpuSpeed2 => 17309697,
            ResourceTags::RamTotal => 219480064,
            ResourceTags::RamFree => 219484160,
            ResourceTags::VirtRamTotal => 219492352,
            ResourceTags::VirtRamFree => 219496448,
            ResourceTags::DiskTotal => 219291648,
            ResourceTags::DiskFree => 219295744,
        }
    }

    /// The number of the tag in the system API.
    pub fn code(&self) -> (c: u32)
        ensures
            c == self.code_of(),
    {
        match self {
            ResourceTags::Temp => 16965632,
            ResourceTags::CpuLoad1 => 17141760,
            ResourceTags::CpuLoad2 => 17141761,
            ResourceTags::CpuSpeed1 => 17309696,
            ResourceTags::CpuSpeed2 => 17309697,
            ResourceTags::RamTotal => 219480064,
            ResourceTags::RamFree => 219484160,
            ResourceTags::VirtRamTotal => 219492352,
            ResourceTags::VirtRamFree => 219496448,
            ResourceTags::DiskTotal => 219291648,
            ResourceTags::DiskFree => 219295744,
        }
    }
}

/// The handle of a terminal: its number, counted from one.
#[derive(Clone, Copy, Debug, PartialEq, Eq, Hash)]
pub struct TerminalId {
    pub id: u32,
}

impl TerminalId {
    /// The handle of the terminal that was started as the `count`-th.
    pub fn new(count: u32) -> (t: TerminalId)
        ensures
            t.id == count,
    {
        TerminalId { id: count }
    }

    /// The place of the terminal in the list of terminals; `None` for the
    /// number zero, which no terminal has.
    pub fn slot(&self) -> (s: Option<usize>)
        ensures
            self.id == 0 ==> s.is_none(),
            self.id > 0 ==> s == Some((self.id - 1) as usize),
    {
        if self.id == 0 {
            None
        } else {
            Some((self.id - 1) as usize)
        }
    }
}

/// A colour of the theme.
#[derive(Clone, Copy, Debug, Default, PartialEq, Eq)]
pub struct Color {
    pub r: u8,
    pub g: u8,
    pub b: u8,
}

} // verus!
