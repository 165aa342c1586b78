//! The registries of indexed parameters: which small integers name which
//! instrument parameters, one registry per kind of value.

use crate::command::{channel_path_text, ChannelField};
use crate::exchange::Decoder;
use vstd::prelude::*;

verus! {

/// The boolean parameters, in the order of their indices.
#[derive(Clone, Copy, Debug, PartialEq, Eq, Structural)]
pub enum BooleanIndex {
    Channel1BwLimit,
    Channel1Display,
    Channel1Invert,
    Channel1Vernier,
    Channel2BwLimit,
    Channel2Display,
    Channel2Invert,
    Channel2Vernier,
    TimebaseWindowEnable,
    MeasureEnable,
    MeasureADisplay,
    MeasureGateEnable,
}

/// How many boolean parameters the registry declares.
pub const BOOLEAN_INDEX_COUNT: usize = 12;

impl BooleanIndex {
    /// The index of a parameter: its position in the declaration.
    pub open spec fn position(self) -> nat {
        match self {
            BooleanIndex::Channel1BwLimit => 0,
            BooleanIndex::Channel1Display => 1,
            BooleanIndex::Channel1Invert => 2,
            BooleanIndex::Channel1Vernier => 3,
            BooleanIndex::Channel2BwLimit => 4,
            BooleanIndex::Channel2Display => 5,
            BooleanIndex::Channel2Invert => 6,
            BooleanIndex::Channel2Vernier => 7,
            BooleanIndex::TimebaseWindowEnable => 8,
            BooleanIndex::MeasureEnable => 9,
            BooleanIndex::MeasureADisplay => 10,
            BooleanIndex::MeasureGateEnable => 11,
        }
    }

    /// The parameter that an index names, if the registry declares it.
    pub open spec fn at(index: nat) -> Option<BooleanIndex> {
        if index == 0 {
            Some(BooleanIndex::Channel1BwLimit)
        } else if index == 1 {
            Some(BooleanIndex::Channel1Display)
        } else if index == 2 {
            Some(BooleanIndex::Channel1Invert)
        } else if index == 3 {
            Some(BooleanIndex::Channel1Vernier)
        } else if index == 4 {
            Some(BooleanIndex::Channel2BwLimit)
        } else if index == 5 {
            Some(BooleanIndex::Channel2Display)
        } else if index == 6 {
            Some(BooleanIndex::Channel2Invert)
        } else if index == 7 {
            Some(BooleanIndex::Channel2Vernier)
        } else if index == 8 {
            Some(BooleanIndex::TimebaseWindowEnable)
        } else if index == 9 {
            Some(BooleanIndex::MeasureEnable)
        } else if index == 10 {
            Some(BooleanIndex::MeasureADisplay)
        } else if index == 11 {
            Some(BooleanIndex::MeasureGateEnable)
        } else {
            None
        }
    }

    /// The command path of a parameter.
    pub open spec fn path_text(self) -> Seq<char> {
        match self {
            BooleanIndex::Channel1BwLimit => "CHANnel1:BWLimit"@,
            BooleanIndex::Channel1Display => "CHANnel1:DISPlay"@,
            BooleanIndex::Channel1Invert => "CHANnel1:INVert"@,
            BooleanIndex::Channel1Vernier => "CHANnel1:VERNier"@,
            BooleanIndex::Channel2BwLimit => "CHANnel2:BWLimit"@,
            BooleanIndex::Channel2Display => "CHANnel2:DISPlay"@,
            BooleanIndex::Channel2Invert => "CHANnel2:INVert"@,
            BooleanIndex::Channel2Vernier => "CHANnel2:VERNier"@,
            BooleanIndex::TimebaseWindowEnable => "TIMebase:WINDow:ENABle"@,
            BooleanIndex::MeasureEnable => "MEASure:ENABle"@,
            BooleanIndex::MeasureADisplay => "MEASure:ADISplay"@,
            BooleanIndex::MeasureGateEnable => "MEASure:GATE:ENABle"@,
        }
    }

    /// Resolves an index to its parameter.
    pub fn from_repr(discriminant: usize) -> (found: Option<Self>)
        ensures
            found == Self::at(discriminant as nat),
    {
        match discriminant {
            0 => Some(BooleanIndex::Channel1BwLimit),
            1 => Some(BooleanIndex::Channel1Display),
            2 => Some(BooleanIndex::Channel1Invert),
            3 => Some(BooleanIndex::Channel1Vernier),
            4 => Some(BooleanIndex::Channel2BwLimit),
            5 => Some(BooleanIndex::Channel2Display),
            6 => Some(BooleanIndex::Channel2Invert),
            7 => Some(BooleanIndex::Channel2Vernier),
            8 => Some(BooleanIndex::TimebaseWindowEnable),
            9 => Some(BooleanIndex::MeasureEnable),
            10 => Some(BooleanIndex::MeasureADisplay),
            11 => Some(BooleanIndex::MeasureGateEnable),
            _ => None,
        }
    }

    /// The index under which the registry lists a parameter.
    pub fn repr(self) -> (index: usize)
        ensures
            index == self.position(),
            index < BOOLEAN_INDEX_COUNT,
    {
        match self {
            BooleanIndex::Channel1BwLimit => 0,
            BooleanIndex::Channel1Display => 1,
            BooleanIndex::Channel1Invert => 2,
            BooleanIndex::Channel1Vernier => 3,
            BooleanIndex::Channel2BwLimit => 4,
            BooleanIndex::Channel2Display => 5,
            BooleanIndex::Channel2Invert => 6,
            BooleanIndex::Channel2Vernier => 7,
            BooleanIndex::TimebaseWindowEnable => 8,
            BooleanIndex::MeasureEnable => 9,
            BooleanIndex::MeasureADisplay => 10,
            BooleanIndex::MeasureGateEnable => 11,
        }
    }

    /// The command path of the parameter.
    pub fn path(self) -> (path: &'static str)
        ensures
            path@ == self.path_text(),
    {
        match self {
            BooleanIndex::Channel1BwLimit => "CHANnel1:BWLimit",
            BooleanIndex::Channel1Display => "CHANnel1:DISPlay",
            BooleanIndex::Channel1Invert => "CHANnel1:INVert",
            BooleanIndex::Channel1Vernier => "CHANnel1:VERNier",
            BooleanIndex::Channel2BwLimit => "CHANnel2:BWLimit",
            BooleanIndex::Channel2Display => "CHANnel2:DISPlay",
            BooleanIndex::Channel2Invert => "CHANnel2:INVert",
            BooleanIndex::Channel2Vernier => "CHANnel2:VERNier",
            BooleanIndex::TimebaseWindowEnable => "TIMebase:WINDow:ENABle",
            BooleanIndex::MeasureEnable => "MEASure:ENABle",
            BooleanIndex::MeasureADisplay => "MEASure:ADISplay",
            BooleanIndex::MeasureGateEnable => "MEASure:GATE:ENABle",
        }
    }

    /// The boolean parameter that stands for a field of a channel: the
    /// second channel's where the channel is 2, the first channel's for any
    /// other. Fields that hold no boolean have none.
    pub open spec fn of_channel(channel_id: nat, field: ChannelField) -> Option<BooleanIndex> {
        match field {
            ChannelField::BwLimit => Some(
                if channel_id == 2 {
                    BooleanIndex::Channel2BwLimit
                } else {
                    BooleanIndex::Channel1BwLimit
                },
            ),
            ChannelField::Display => Some(
                if channel_id == 2 {
                    BooleanIndex::Channel2Display
                } else {
                    BooleanIndex::Channel1Display
                },
            ),
            ChannelField::Invert => Some(
                if channel_id == 2 {
                    BooleanIndex::Channel2Invert
                } else {
                    BooleanIndex::Channel1Invert
                },
            ),
            ChannelField::Vernier => Some(
                if channel_id == 2 {
                    BooleanIndex::Channel2Vernier
                } else {
                    BooleanIndex::Channel1Vernier
                },
            ),
            _ => None,
        }
    }

    /// Finds the boolean parameter that stands for a field of a channel.
    pub fn for_channel(channel_id: usize, field: ChannelField) -> (found: Option<Self>)
        ensures
            found == Self::of_channel(channel_id as nat, field),
    {
        let second: bool = channel_id == 2;
        match field {
            ChannelField::BwLimit => Some(
                if second {
                    BooleanIndex::Channel2BwLimit
                } else {
                    BooleanIndex::Channel1BwLimit
                },
            ),
            ChannelField::Display => Some(
                if second {
                    BooleanIndex::Channel2Display
                } else {
                    BooleanIndex::Channel1Display
                },
            ),
            ChannelField::Invert => Some(
                if second {
                    BooleanIndex::Channel2Invert
                } else {
                    BooleanIndex::Channel1Invert
                },
            ),
            ChannelField::Vernier => Some(
                if second {
                    BooleanIndex::Channel2Vernier
                } else {
                    BooleanIndex::Channel1Vernier
                },
            ),
            _ => None,
        }
    }

    /// No two parameters share a path.
    pub proof fn lemma_paths_distinct(a: BooleanIndex, b: BooleanIndex)
        requires
            a.path_text() == b.path_text(),
        ensures
            a == b,
    {
        reveal_strlit("CHANnel1:BWLimit");
        reveal_strlit("CHANnel1:DISPlay");
        reveal_strlit("CHANnel1:INVert");
        reveal_strlit("CHANnel1:VERNier");
        reveal_strlit("CHANnel2:BWLimit");
        reveal_strlit("CHANnel2:DISPlay");
        reveal_strlit("CHANnel2:INVert");
        reveal_strlit("CHANnel2:VERNier");
        reveal_strlit("TIMebase:WINDow:ENABle");
        reveal_strlit("MEASure:ENABle");
        reveal_strlit("MEASure:ADISplay");
        reveal_strlit("MEASure:GATE:ENABle");
        let p = a.path_text();
        let q = b.path_text();
        assert(p.len() == q.len() && p[0] == q[0] && p[7] == q[7] && p[9] == q[9]);
    }

    /// The parameter that stands for a field of channel 1 or 2 has the path
    /// that the field has on that channel.
    pub proof fn lemma_channel_path(channel_id: nat, field: ChannelField)
        requires
            channel_id == 1 || channel_id == 2,
        ensures
            Self::of_channel(channel_id, field) matches Some(parameter) ==> parameter.path_text()
                == channel_path_text(channel_id, field),
    {
        reveal_strlit("CHANnel1:BWLimit");
        reveal_strlit("CHANnel1:DISPlay");
        reveal_strlit("CHANnel1:INVert");
        reveal_strlit("CHANnel1:VERNier");
        reveal_strlit("CHANnel2:BWLimit");
        reveal_strlit("CHANnel2:DISPlay");
        reveal_strlit("CHANnel2:INVert");
        reveal_strlit("CHANnel2:VERNier");
        reveal_strlit("CHANnel");
        reveal_strlit(":");
        reveal_strlit("BWLimit");
        reveal_strlit("DISPlay");
        reveal_strlit("INVert");
        reveal_strlit("VERNier");
        if let Some(parameter) = Self::of_channel(channel_id, field) {
            assert(parameter.path_text() =~= channel_path_text(channel_id, field));
        }
    }

    /// An index resolves exactly when it is below the number of declared
    /// parameters, and then to the one parameter listed at that position.
    pub proof fn lemma_index_total(index: nat)
        ensures
            Self::at(index) is Some <==> index < BOOLEAN_INDEX_COUNT,
            forall|b: BooleanIndex| Self::at(index) == Some(b) <==> b.position() == index,
    {
    }

    /// Every parameter is found again under its own index.
    pub proof fn lemma_at_position(self)
        ensures
            Self::at(self.position()) == Some(self),
            self.position() < BOOLEAN_INDEX_COUNT,
    {
    }
}

/// The parameters that are read and written as text, in the order of their
/// indices.
#[derive(Clone, Copy, Debug, PartialEq, Eq, Structural)]
pub enum StringIndex {
    Channel1Coupling,
    Channel1Scale,
    Channel1Probe,
}

/// How many text parameters the registry declares.
pub const STRING_INDEX_COUNT: usize = 3;

impl StringIndex {
    /// The index of a parameter: its position in the declaration.
    pub open spec fn position(self) -> nat {
        match self {
            StringIndex::Channel1Coupling => 0,
            StringIndex::Channel1Scale => 1,
            StringIndex::Channel1Probe => 2,
        }
    }

    /// The parameter that an index names, if the registry declares it.
    pub open spec fn at(index: nat) -> Option<StringIndex> {
        if index == 0 {
            Some(StringIndex::Channel1Coupling)
        } else if index == 1 {
            Some(StringIndex::Channel1Scale)
        } else if index == 2 {
            Some(StringIndex::Channel1Probe)
        } else {
            None
        }
    }

    /// The command path of a parameter.
    pub open spec fn path_text(self) -> Seq<char> {
        match self {
            StringIndex::Channel1Coupling => "CHANnel1:COUPling"@,
            StringIndex::Channel1Scale => "CHANnel1:SCALe"@,
            StringIndex::Channel1Probe => "CHANnel1:PROBe"@,
        }
    }

    /// How the response to a query of the parameter is read: the coupling
    /// as the text it is, scale and probe as numbers shown by their labels.
    pub open spec fn reading_decoder(self) -> Decoder {
        match self {
            StringIndex::Channel1Coupling => Decoder::Text,
            StringIndex::Channel1Scale => Decoder::ScaleLabel,
            StringIndex::Channel1Probe => Decoder::ProbeLabel,
        }
    }

    /// The text parameter that stands for a field of a channel. The registry
    /// lists those of the first channel only, and they stand for every
    /// channel. Fields that are not text have none.
    pub open spec fn of_channel(channel_id: nat, field: ChannelField) -> Option<StringIndex> {
        match field {
            ChannelField::Coupling => Some(StringIndex::Channel1Coupling),
            ChannelField::Scale => Some(StringIndex::Channel1Scale),
            ChannelField::Probe => Some(StringIndex::Channel1Probe),
            _ => None,
        }
    }

    /// Resolves an index to its parameter.
    pub fn from_repr(discriminant: usize) -> (found: Option<Self>)
        ensures
            found == Self::at(discriminant as nat),
    {
        match discriminant {
            0 => Some(StringIndex::Channel1Coupling),
            1 => Some(StringIndex::Channel1Scale),
            2 => Some(StringIndex::Channel1Probe),
            _ => None,
        }
    }

    /// The index under which the registry lists a parameter.
    pub fn repr(self) -> (index: usize)
        ensures
            index == self.position(),
            index < STRING_INDEX_COUNT,
    {
        match self {
            StringIndex::Channel1Coupling => 0,
            StringIndex::Channel1Scale => 1,
            StringIndex::Channel1Probe => 2,
        }
    }

    /// The command path of the parameter.
    pub fn path(self) -> (path: &'static str)
        ensures
            path@ == self.path_text(),
    {
        match self {
            StringIndex::Channel1Coupling => "CHANnel1:COUPling",
            StringIndex::Channel1Scale => "CHANnel1:SCALe",
            StringIndex::Channel1Probe => "CHANnel1:PROBe",
        }
    }

    /// How the response to a query of the parameter is read.
    pub fn decoder(self) -> (decoder: Decoder)
        ensures
            decoder == self.reading_decoder(),
    {
        match self {
            StringIndex::Channel1Coupling => Decoder::Text,
            StringIndex::Channel1Scale => Decoder::ScaleLabel,
            StringIndex::Channel1Probe => Decoder::ProbeLabel,
        }
    }

    /// Finds the text parameter that stands for a field of a channel.
    pub fn for_channel(channel_id: usize, field: ChannelField) -> (found: Option<Self>)
        ensures
            found == Self::of_channel(channel_id as nat, field),
    {
        match field {
            ChannelField::Coupling => Some(StringIndex::Channel1Coupling),
            ChannelField::Scale => Some(StringIndex::Channel1Scale),
            ChannelField::Probe => Some(StringIndex::Channel1Probe),
            _ => None,
        }
    }

    /// No two parameters share a path.
    pub proof fn lemma_paths_distinct(a: StringIndex, b: StringIndex)
        requires
            a.path_text() == b.path_text(),
        ensures
            a == b,
    {
        reveal_strlit("CHANnel1:COUPling");
        reveal_strlit("CHANnel1:SCALe");
        reveal_strlit("CHANnel1:PROBe");
        let p = a.path_text();
        let q = b.path_text();
        assert(p.len() == q.len() && p[9] == q[9]);
    }

    /// The parameter that stands for a field of channel 1 has the path that
    /// the field has on that channel.
    pub proof fn lemma_channel_path(field: ChannelField)
        ensures
            Self::of_channel(1, field) matches Some(parameter) ==> parameter.path_text()
                == channel_path_text(1, field),
    {
        reveal_strlit("CHANnel1:COUPling");
        reveal_strlit("CHANnel1:SCALe");
        reveal_strlit("CHANnel1:PROBe");
        reveal_strlit("CHANnel");
        reveal_strlit(":");
        reveal_strlit("COUPling");
        reveal_strlit("SCALe");
        reveal_strlit("PROBe");
        if let Some(parameter) = Self::of_channel(1, field) {
            assert(parameter.path_text() =~= channel_path_text(1, field));
        }
    }

    /// An index resolves exactly when it is below the number of declared
    /// parameters, and then to the one parameter listed at that position.
    pub proof fn lemma_index_total(index: nat)
        ensures
            Self::at(index) is Some <==> index < STRING_INDEX_COUNT,
            forall|s: StringIndex| Self::at(index) == Some(s) <==> s.position() == index,
    {
    }

    /// Every parameter is found again under its own index.
    pub proof fn lemma_at_position(self)
        ensures
            Self::at(self.position()) == Some(self),
            self.position() < STRING_INDEX_COUNT,
    {
    }
}

} // verus!
