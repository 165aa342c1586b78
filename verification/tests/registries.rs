use hantek_dso2c10::command::{channel_path, query_command, set_command, ChannelField};
use hantek_dso2c10::exchange::Decoder;
use hantek_dso2c10::index::{
    BooleanIndex, StringIndex, BOOLEAN_INDEX_COUNT, STRING_INDEX_COUNT,
};
use hantek_dso2c10::package::Package;
use hantek_dso2c10::text::push_decimal;

const BOOLEANS: [BooleanIndex; 12] = [
    BooleanIndex::Channel1BwLimit,
    BooleanIndex::Channel1Display,
    BooleanIndex::Channel1Invert,
    BooleanIndex::Channel1Vernier,
    BooleanIndex::Channel2BwLimit,
    BooleanIndex::Channel2Display,
    BooleanIndex::Channel2Invert,
    BooleanIndex::Channel2Vernier,
    BooleanIndex::TimebaseWindowEnable,
    BooleanIndex::MeasureEnable,
    BooleanIndex::MeasureADisplay,
    BooleanIndex::MeasureGateEnable,
];

const STRINGS: [StringIndex; 3] =
    [StringIndex::Channel1Coupling, StringIndex::Channel1Scale, StringIndex::Channel1Probe];

const FIELDS: [ChannelField; 8] = [
    ChannelField::BwLimit,
    ChannelField::Display,
    ChannelField::Invert,
    ChannelField::Vernier,
    ChannelField::Offset,
    ChannelField::Scale,
    ChannelField::Coupling,
    ChannelField::Probe,
];

#[test]
fn boolean_indices_follow_the_declaration() {
    assert_eq!(BOOLEAN_INDEX_COUNT, BOOLEANS.len());
    for (index, parameter) in BOOLEANS.iter().enumerate() {
        assert_eq!(BooleanIndex::from_repr(index), Some(*parameter));
        assert_eq!(parameter.repr(), index);
    }
}

#[test]
fn string_indices_follow_the_declaration() {
    assert_eq!(STRING_INDEX_COUNT, STRINGS.len());
    for (index, parameter) in STRINGS.iter().enumerate() {
        assert_eq!(StringIndex::from_repr(index), Some(*parameter));
        assert_eq!(parameter.repr(), index);
    }
}

#[test]
fn indices_past_the_declaration_name_nothing() {
    for index in [12usize, 13, 255, 256, usize::MAX] {
        assert_eq!(BooleanIndex::from_repr(index), None);
    }
    for index in [3usize, 4, 255, 256, usize::MAX] {
        assert_eq!(StringIndex::from_repr(index), None);
    }
}

#[test]
fn no_two_parameters_share_a_path() {
    for (i, a) in BOOLEANS.iter().enumerate() {
        for (j, b) in BOOLEANS.iter().enumerate() {
            assert_eq!(a.path() == b.path(), i == j);
        }
    }
    for (i, a) in STRINGS.iter().enumerate() {
        for (j, b) in STRINGS.iter().enumerate() {
            assert_eq!(a.path() == b.path(), i == j);
        }
        for b in BOOLEANS.iter() {
            assert_ne!(a.path(), b.path());
        }
    }
}

#[test]
fn ungrouped_parameters_have_their_paths() {
    assert_eq!(BooleanIndex::TimebaseWindowEnable.path(), "TIMebase:WINDow:ENABle");
    assert_eq!(BooleanIndex::MeasureEnable.path(), "MEASure:ENABle");
    assert_eq!(BooleanIndex::MeasureADisplay.path(), "MEASure:ADISplay");
    assert_eq!(BooleanIndex::MeasureGateEnable.path(), "MEASure:GATE:ENABle");
}

#[test]
fn channel_parameters_have_the_path_of_their_field() {
    for channel in [1usize, 2] {
        for field in FIELDS {
            if let Some(parameter) = BooleanIndex::for_channel(channel, field) {
                assert_eq!(parameter.path(), channel_path(channel, field));
            }
        }
    }
    for field in FIELDS {
        if let Some(parameter) = StringIndex::for_channel(1, field) {
            assert_eq!(parameter.path(), channel_path(1, field));
        }
    }
}

#[test]
fn boolean_fields_map_to_the_channel() {
    assert_eq!(BooleanIndex::for_channel(1, ChannelField::BwLimit), Some(BooleanIndex::Channel1BwLimit));
    assert_eq!(BooleanIndex::for_channel(2, ChannelField::BwLimit), Some(BooleanIndex::Channel2BwLimit));
    assert_eq!(BooleanIndex::for_channel(1, ChannelField::Display), Some(BooleanIndex::Channel1Display));
    assert_eq!(BooleanIndex::for_channel(2, ChannelField::Display), Some(BooleanIndex::Channel2Display));
    assert_eq!(BooleanIndex::for_channel(1, ChannelField::Invert), Some(BooleanIndex::Channel1Invert));
    assert_eq!(BooleanIndex::for_channel(2, ChannelField::Invert), Some(BooleanIndex::Channel2Invert));
    assert_eq!(BooleanIndex::for_channel(1, ChannelField::Vernier), Some(BooleanIndex::Channel1Vernier));
    assert_eq!(BooleanIndex::for_channel(2, ChannelField::Vernier), Some(BooleanIndex::Channel2Vernier));
}

#[test]
fn any_other_channel_maps_to_the_first() {
    for channel in [0usize, 3, 4, usize::MAX] {
        assert_eq!(BooleanIndex::for_channel(channel, ChannelField::BwLimit), Some(BooleanIndex::Channel1BwLimit));
        assert_eq!(BooleanIndex::for_channel(channel, ChannelField::Vernier), Some(BooleanIndex::Channel1Vernier));
    }
}

#[test]
fn text_fields_map_to_the_first_channel() {
    for channel in [0usize, 1, 2, 3] {
        assert_eq!(StringIndex::for_channel(channel, ChannelField::Coupling), Some(StringIndex::Channel1Coupling));
        assert_eq!(StringIndex::for_channel(channel, ChannelField::Scale), Some(StringIndex::Channel1Scale));
        assert_eq!(StringIndex::for_channel(channel, ChannelField::Probe), Some(StringIndex::Channel1Probe));
    }
}

#[test]
fn fields_of_another_kind_map_to_nothing() {
    for field in [ChannelField::Offset, ChannelField::Scale, ChannelField::Coupling, ChannelField::Probe] {
        assert_eq!(BooleanIndex::for_channel(1, field), None);
    }
    for field in [
        ChannelField::BwLimit,
        ChannelField::Display,
        ChannelField::Invert,
        ChannelField::Vernier,
        ChannelField::Offset,
    ] {
        assert_eq!(StringIndex::for_channel(1, field), None);
    }
}

#[test]
fn text_parameters_choose_their_decoder() {
    assert_eq!(StringIndex::Channel1Coupling.decoder(), Decoder::Text);
    assert_eq!(StringIndex::Channel1Scale.decoder(), Decoder::ScaleLabel);
    assert_eq!(StringIndex::Channel1Probe.decoder(), Decoder::ProbeLabel);
}

#[test]
fn fields_have_their_keywords() {
    let keywords = ["BWLimit", "DISPlay", "INVert", "VERNier", "OFFSet", "SCALe", "COUPling", "PROBe"];
    for (field, keyword) in FIELDS.iter().zip(keywords) {
        assert_eq!(field.keyword(), keyword);
        assert_eq!(channel_path(1, *field), format!("CHANnel1:{}", keyword));
        assert_eq!(channel_path(2, *field), format!("CHANnel2:{}", keyword));
    }
}

#[test]
fn commands_are_path_and_mark_or_value() {
    assert_eq!(query_command("CHANnel1:OFFSet"), "CHANnel1:OFFSet?");
    assert_eq!(query_command(""), "?");
    assert_eq!(set_command("CHANnel1:OFFSet", "-10"), "CHANnel1:OFFSet -10");
    assert_eq!(set_command("MEASure:ENABle", ""), "MEASure:ENABle ");
}

#[test]
fn numbers_are_written_in_decimal() {
    for n in [0usize, 1, 9, 10, 11, 99, 100, 101, 12345, 4294967295, usize::MAX] {
        let mut text = String::from(">");
        push_decimal(&mut text, n);
        assert_eq!(text, format!(">{}", n));
    }
}

#[test]
fn the_package_names_the_instrument() {
    let package = Package::default();
    assert_eq!(package.manufacturer(), "hantek");
    assert_eq!(package.model(), "DSO2C10");
    assert_eq!(package.description(), "Oscilloscope");
    assert_eq!(package.name(), "hantek");
    let boxed: Box<Package> = package.boxed();
    assert_eq!(boxed.model(), "DSO2C10");
}
