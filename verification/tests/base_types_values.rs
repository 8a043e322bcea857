use live2d_chat_core::base_types::{
    check_moc_version, CubismVersion, DrawableIndex, Moc, MocError, MocVersion, TextureIndex,
};

#[test]
fn cubism_version_parts() {
    let version = CubismVersion(0x0501_0203);
    assert_eq!(version.raw(), 0x0501_0203);
    assert_eq!(version.major(), 5);
    assert_eq!(version.minor(), 1);
    assert_eq!(version.patch(), 0x0203);
    let top = CubismVersion(u32::MAX);
    assert_eq!((top.major(), top.minor(), top.patch()), (255, 255, 65535));
    let zero = CubismVersion(0);
    assert_eq!((zero.major(), zero.minor(), zero.patch()), (0, 0, 0));
}

#[test]
fn cubism_version_text() {
    assert_eq!(CubismVersion(0x0500_0000).to_string(), "05.00.0000 (0x05000000)");
    assert_eq!(CubismVersion(0x0401_0203).to_string(), "04.01.0515 (0x04010203)");
    assert_eq!(CubismVersion(0).to_string(), "00.00.0000 (0x00000000)");
    assert_eq!(CubismVersion(u32::MAX).to_string(), "255.255.65535 (0xffffffff)");
    assert_eq!(CubismVersion(0x0a0b_000c).to_string(), "10.11.0012 (0x0a0b000c)");
}

#[test]
fn cubism_versions_are_ordered_by_number() {
    assert!(CubismVersion(0x0400_0000) < CubismVersion(0x0500_0000));
    assert_eq!(CubismVersion(7), CubismVersion(7));
}

#[test]
fn moc_version_numbers() {
    let all = [
        (1u32, MocVersion::Moc3_30),
        (2, MocVersion::Moc3_33),
        (3, MocVersion::Moc3_40),
        (4, MocVersion::Moc3_42),
        (5, MocVersion::Moc3_50),
    ];
    for (number, version) in all {
        assert_eq!(version.to_primitive(), number);
        assert_eq!(MocVersion::try_from_primitive(number), Ok(version));
    }
    assert_eq!(MocVersion::try_from_primitive(0), Err(0));
    assert_eq!(MocVersion::try_from_primitive(6), Err(6));
    assert_eq!(MocVersion::try_from_primitive(u32::MAX), Err(u32::MAX));
    assert!(MocVersion::Moc3_30 < MocVersion::Moc3_33);
    assert!(MocVersion::Moc3_42 < MocVersion::Moc3_50);
}

#[test]
fn moc_version_text() {
    assert_eq!(MocVersion::Moc3_30.to_string(), "30(3.0.00 - 3.2.07)");
    assert_eq!(MocVersion::Moc3_33.to_string(), "33(3.3.00 - 3.3.03)");
    assert_eq!(MocVersion::Moc3_40.to_string(), "40(4.0.00 - 4.1.05)");
    assert_eq!(MocVersion::Moc3_42.to_string(), "42(4.2.00 - 4.2.04)");
    assert_eq!(MocVersion::Moc3_50.to_string(), "50(5.0.00 -)");
    assert_eq!(MocVersion::Moc3_40.variant_name(), "Moc3_40");
    assert_eq!(format!("{:?}", MocVersion::Moc3_40), MocVersion::Moc3_40.variant_name());
}

#[test]
fn moc_error_text() {
    assert_eq!(MocError::InvalidMoc.to_string(), "Not a valid moc file.");
    let unsupported = MocError::UnsupportedMocVersion {
        given: MocVersion::Moc3_50,
        latest_supported: MocVersion::Moc3_42,
    };
    assert_eq!(
        unsupported.to_string(),
        "Unsupported moc version. given: \"50(5.0.00 -)\" latest supported:\"42(4.2.00 - 4.2.04)\""
    );
    assert_eq!(MocError::InvalidMoc.describe(), "Invalid moc");
    assert_eq!(
        unsupported.describe(),
        "Unsupported moc version: Moc3_50, latest: Moc3_42"
    );
}

#[test]
fn indices_as_usize() {
    assert_eq!(TextureIndex(0).as_usize(), 0);
    assert_eq!(TextureIndex(17).as_usize(), 17);
    assert_eq!(DrawableIndex(3).as_usize(), 3);
    assert_eq!(DrawableIndex(u32::MAX as u64).as_usize(), u32::MAX as usize);
    assert_eq!(TextureIndex::from(9usize), TextureIndex(9));
    assert_eq!(DrawableIndex::from(11usize), DrawableIndex(11));
    assert_eq!(TextureIndex(12).to_string(), "12");
    assert_eq!(DrawableIndex(u64::MAX).to_string(), "18446744073709551615");
}

#[test]
fn moc_keeps_version_and_handle() {
    let moc = Moc::new(MocVersion::Moc3_42, vec![1u8, 2, 3]);
    assert_eq!(moc.version(), MocVersion::Moc3_42);
    assert_eq!(moc.inner(), &vec![1u8, 2, 3]);
}

#[test]
fn moc_version_check_admits_known_formats_up_to_the_latest() {
    assert_eq!(
        check_moc_version(1, MocVersion::Moc3_42),
        Ok(MocVersion::Moc3_30)
    );
    assert_eq!(
        check_moc_version(4, MocVersion::Moc3_42),
        Ok(MocVersion::Moc3_42)
    );
    assert_eq!(
        check_moc_version(5, MocVersion::Moc3_50),
        Ok(MocVersion::Moc3_50)
    );
    assert_eq!(
        check_moc_version(5, MocVersion::Moc3_42),
        Err(MocError::UnsupportedMocVersion {
            given: MocVersion::Moc3_50,
            latest_supported: MocVersion::Moc3_42,
        })
    );
    assert_eq!(
        check_moc_version(2, MocVersion::Moc3_30),
        Err(MocError::UnsupportedMocVersion {
            given: MocVersion::Moc3_33,
            latest_supported: MocVersion::Moc3_30,
        })
    );
    assert_eq!(check_moc_version(0, MocVersion::Moc3_50), Err(MocError::InvalidMoc));
    assert_eq!(check_moc_version(6, MocVersion::Moc3_50), Err(MocError::InvalidMoc));
    assert_eq!(
        check_moc_version(u32::MAX, MocVersion::Moc3_30),
        Err(MocError::InvalidMoc)
    );
}
