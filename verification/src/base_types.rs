//! Plain value types that describe a model engine and the models it loads:
//! version numbers, model-file format versions, loading errors, and indices.

use crate::text::{
    append_decimal, append_hex, append_padded_decimal, decimal_digits, hex_digits, padded_decimal,
};
use vstd::prelude::*;
use vstd::string::*;

verus! {

/// Engine version identifier: major in the top byte, minor in the next byte,
/// patch in the low sixteen bits.
#[derive(Clone, Copy, PartialEq, Eq, PartialOrd, Ord, Hash, Debug, Structural)]
pub struct CubismVersion(pub u32);

impl CubismVersion {
    /// The text of a version: `MM.mm.pppp (0xhhhhhhhh)`, with major and minor
    /// in at least two decimal digits, patch in at least four, and the raw
    /// number in eight hexadecimal digits.
    pub open spec fn text(self) -> Seq<char> {
        padded_decimal((self.0 / 0x100_0000) as nat, 2) + seq!['.'] + padded_decimal(
            ((self.0 / 0x1_0000) % 0x100) as nat,
            2,
        ) + seq!['.'] + padded_decimal((self.0 % 0x1_0000) as nat, 4) + seq![' ', '(', '0', 'x']
            + hex_digits(self.0 as nat, 8) + seq![')']
    }

    /// The version as one number.
    pub fn raw(&self) -> (raw: u32)
        ensures
            raw == self.0,
    {
        self.0
    }

    /// The major version: the top byte.
    pub fn major(&self) -> (major: u32)
        ensures
            major == self.0 / 0x100_0000,
    {
        let raw = self.0;
        let major = (raw & 0xFF000000) >> 24;
        assert(major == raw / 0x100_0000) by (bit_vector)
            requires
                major == (raw & 0xFF000000) >> 24,
        ;
        major
    }

    /// The minor version: the second byte from the top.
    pub fn minor(&self) -> (minor: u32)
        ensures
            minor == (self.0 / 0x1_0000) % 0x100,
    {
        let raw = self.0;
        let minor = (raw & 0x00FF0000) >> 16;
        assert(minor == (raw / 0x1_0000) % 0x100) by (bit_vector)
            requires
                minor == (raw & 0x00FF0000) >> 16,
        ;
        minor
    }

    /// The patch number: the low sixteen bits.
    pub fn patch(&self) -> (patch: u32)
        ensures
            patch == self.0 % 0x1_0000,
    {
        let raw = self.0;
        let patch = raw & 0x0000FFFF;
        assert(patch == raw % 0x1_0000) by (bit_vector)
            requires
                patch == raw & 0x0000FFFF,
        ;
        patch
    }

    /// The version as text.
    pub fn to_string(&self) -> (text: String)
        ensures
            text@ == self.text(),
    {
        proof {
            reveal_strlit(".");
            reveal_strlit(" (0x");
            reveal_strlit(")");
        }
        let mut out = String::new();
        append_padded_decimal(&mut out, self.major() as u64, 2);
        out.append(".");
        append_padded_decimal(&mut out, self.minor() as u64, 2);
        out.append(".");
        append_padded_decimal(&mut out, self.patch() as u64, 4);
        out.append(" (0x");
        append_hex(&mut out, self.0, 8);
        out.append(")");
        assert(" (0x"@ =~= seq![' ', '(', '0', 'x']);
        assert(out@ =~= self.text());
        out
    }
}

/// Version of the model file format.
#[derive(Clone, Copy, PartialEq, Eq, PartialOrd, Ord, Hash, Debug, Structural)]
pub enum MocVersion {
    /// Files of the engine's releases 3.0.00 to 3.2.07.
    Moc3_30,
    /// Files of the engine's releases 3.3.00 to 3.3.03.
    Moc3_33,
    /// Files of the engine's releases 4.0.00 to 4.1.05.
    Moc3_40,
    /// Files of the engine's releases 4.2.00 to 4.2.04.
    Moc3_42,
    /// Files of the engine's releases from 5.0.00 on.
    Moc3_50,
}

impl MocVersion {
    /// The number that the engine uses for a format version: 1 to 5.
    pub open spec fn number(self) -> u32 {
        match self {
            MocVersion::Moc3_30 => 1,
            MocVersion::Moc3_33 => 2,
            MocVersion::Moc3_40 => 3,
            MocVersion::Moc3_42 => 4,
            MocVersion::Moc3_50 => 5,
        }
    }

    /// The text of a format version: its short number and the engine
    /// releases that write it.
    pub open spec fn text(self) -> Seq<char> {
        match self {
            MocVersion::Moc3_30 => "30(3.0.00 - 3.2.07)"@,
            MocVersion::Moc3_33 => "33(3.3.00 - 3.3.03)"@,
            MocVersion::Moc3_40 => "40(4.0.00 - 4.1.05)"@,
            MocVersion::Moc3_42 => "42(4.2.00 - 4.2.04)"@,
            MocVersion::Moc3_50 => "50(5.0.00 -)"@,
        }
    }

    /// The variant's name.
    pub open spec fn name(self) -> Seq<char> {
        match self {
            MocVersion::Moc3_30 => "Moc3_30"@,
            MocVersion::Moc3_33 => "Moc3_33"@,
            MocVersion::Moc3_40 => "Moc3_40"@,
            MocVersion::Moc3_42 => "Moc3_42"@,
            MocVersion::Moc3_50 => "Moc3_50"@,
        }
    }

    /// The number that the engine uses for this format version.
    pub fn to_primitive(self) -> (number: u32)
        ensures
            number == self.number(),
    {
        match self {
            MocVersion::Moc3_30 => 1,
            MocVersion::Moc3_33 => 2,
            MocVersion::Moc3_40 => 3,
            MocVersion::Moc3_42 => 4,
            MocVersion::Moc3_50 => 5,
        }
    }

    /// The format version with the given number, or the number back if no
    /// format version has it.
    pub fn try_from_primitive(number: u32) -> (outcome: Result<MocVersion, u32>)
        ensures
            1 <= number <= 5 <==> outcome is Ok,
            outcome matches Ok(version) ==> version.number() == number,
            outcome matches Err(rejected) ==> rejected == number,
    {
        if number == 1 {
            Ok(MocVersion::Moc3_30)
        } else if number == 2 {
            Ok(MocVersion::Moc3_33)
        } else if number == 3 {
            Ok(MocVersion::Moc3_40)
        } else if number == 4 {
            Ok(MocVersion::Moc3_42)
        } else if number == 5 {
            Ok(MocVersion::Moc3_50)
        } else {
            Err(number)
        }
    }

    /// The format version as text.
    pub fn to_string(&self) -> (text: String)
        ensures
            text@ == self.text(),
    {
        match self {
            MocVersion::Moc3_30 => String::from_str("30(3.0.00 - 3.2.07)"),
            MocVersion::Moc3_33 => String::from_str("33(3.3.00 - 3.3.03)"),
            MocVersion::Moc3_40 => String::from_str("40(4.0.00 - 4.1.05)"),
            MocVersion::Moc3_42 => String::from_str("42(4.2.00 - 4.2.04)"),
            MocVersion::Moc3_50 => String::from_str("50(5.0.00 -)"),
        }
    }

    /// The variant's name as text.
    pub fn variant_name(&self) -> (text: &'static str)
        ensures
            text@ == self.name(),
    {
        match self {
            MocVersion::Moc3_30 => "Moc3_30",
            MocVersion::Moc3_33 => "Moc3_33",
            MocVersion::Moc3_40 => "Moc3_40",
            MocVersion::Moc3_42 => "Moc3_42",
            MocVersion::Moc3_50 => "Moc3_50",
        }
    }
}

/// Why a model file could not be loaded.
#[derive(Clone, Copy, Debug, PartialEq, Eq, Structural)]
pub enum MocError {
    /// The bytes are no model file.
    InvalidMoc,
    /// The file's format is newer than the engine supports.
    UnsupportedMocVersion { given: MocVersion, latest_supported: MocVersion },
}

impl MocError {
    /// The message of an error.
    pub open spec fn text(self) -> Seq<char> {
        match self {
            MocError::InvalidMoc => "Not a valid moc file."@,
            MocError::UnsupportedMocVersion { given, latest_supported } => {
                "Unsupported moc version. given: \""@ + given.text() + "\" latest supported:\""@
                    + latest_supported.text() + "\""@
            },
        }
    }

    /// The short report of an error for a caller that shows it to a user.
    pub open spec fn report(self) -> Seq<char> {
        match self {
            MocError::InvalidMoc => "Invalid moc"@,
            MocError::UnsupportedMocVersion { given, latest_supported } => {
                "Unsupported moc version: "@ + given.name() + ", latest: "@
                    + latest_supported.name()
            },
        }
    }

    /// The error's message.
    pub fn to_string(&self) -> (text: String)
        ensures
            text@ == self.text(),
    {
        match self {
            MocError::InvalidMoc => String::from_str("Not a valid moc file."),
            MocError::UnsupportedMocVersion { given, latest_supported } => {
                let mut out = String::from_str("Unsupported moc version. given: \"");
                out.append(given.to_string().as_str());
                out.append("\" latest supported:\"");
                out.append(latest_supported.to_string().as_str());
                out.append("\"");
                out
            },
        }
    }

    /// The error's short report.
    pub fn describe(&self) -> (text: String)
        ensures
            text@ == self.report(),
    {
        match self {
            MocError::InvalidMoc => String::from_str("Invalid moc"),
            MocError::UnsupportedMocVersion { given, latest_supported } => {
                let mut out = String::from_str("Unsupported moc version: ");
                out.append(given.variant_name());
                out.append(", latest: ");
                out.append(latest_supported.variant_name());
                out
            },
        }
    }
}

/// What loading a file whose header names the format `number` comes to,
/// before the file's contents are looked at: a number that is no format is
/// no model file, and a format newer than `latest_supported` is refused.
pub open spec fn moc_version_check(number: u32, latest_supported: MocVersion) -> Result<
    MocVersion,
    MocError,
> {
    if number == 1 {
        moc_version_admitted(MocVersion::Moc3_30, latest_supported)
    } else if number == 2 {
        moc_version_admitted(MocVersion::Moc3_33, latest_supported)
    } else if number == 3 {
        moc_version_admitted(MocVersion::Moc3_40, latest_supported)
    } else if number == 4 {
        moc_version_admitted(MocVersion::Moc3_42, latest_supported)
    } else if number == 5 {
        moc_version_admitted(MocVersion::Moc3_50, latest_supported)
    } else {
        Err(MocError::InvalidMoc)
    }
}

/// The format `given`, unless it is newer than `latest_supported`.
pub open spec fn moc_version_admitted(given: MocVersion, latest_supported: MocVersion) -> Result<
    MocVersion,
    MocError,
> {
    if given.number() > latest_supported.number() {
        Err(MocError::UnsupportedMocVersion { given, latest_supported })
    } else {
        Ok(given)
    }
}

/// Decides whether a file whose header names the format `number` can be
/// loaded by an engine that reads formats up to `latest_supported`.
pub fn check_moc_version(number: u32, latest_supported: MocVersion) -> (outcome: Result<
    MocVersion,
    MocError,
>)
    ensures
        outcome == moc_version_check(number, latest_supported),
{
    match MocVersion::try_from_primitive(number) {
        Ok(given) => {
            if given.to_primitive() > latest_supported.to_primitive() {
                Err(MocError::UnsupportedMocVersion { given, latest_supported })
            } else {
                Ok(given)
            }
        },
        Err(_) => Err(MocError::InvalidMoc),
    }
}

/// Index of a texture that a model file refers to.
#[derive(Clone, Copy, PartialEq, Eq, PartialOrd, Ord, Hash, Debug, Structural)]
pub struct TextureIndex(pub u64);

impl TextureIndex {
    /// The index as a `usize`: the same number wherever a `usize` can hold it.
    #[inline]
    pub fn as_usize(&self) -> (index: usize)
        ensures
            index == self.0 as usize,
            self.0 <= usize::MAX ==> index == self.0,
    {
        #[verifier::truncate]
        (self.0 as usize)
    }

    /// The index in decimal digits.
    pub fn to_string(&self) -> (text: String)
        ensures
            text@ == decimal_digits(self.0 as nat),
    {
        let mut out = String::new();
        append_decimal(&mut out, self.0);
        assert(out@ =~= decimal_digits(self.0 as nat));
        out
    }
}

impl From<usize> for TextureIndex {
    fn from(value: usize) -> (index: Self) {
        Self(value as u64)
    }
}

impl vstd::std_specs::convert::FromSpecImpl<usize> for TextureIndex {
    open spec fn obeys_from_spec() -> bool {
        true
    }

    open spec fn from_spec(value: usize) -> Self {
        TextureIndex(value as u64)
    }
}

/// Index of a drawable within a model.
#[derive(Clone, Copy, PartialEq, Eq, PartialOrd, Ord, Hash, Debug, Structural)]
pub struct DrawableIndex(pub u64);

impl DrawableIndex {
    /// The index as a `usize`: the same number wherever a `usize` can hold it.
    #[inline]
    pub fn as_usize(&self) -> (index: usize)
        ensures
            index == self.0 as usize,
            self.0 <= usize::MAX ==> index == self.0,
    {
        #[verifier::truncate]
        (self.0 as usize)
    }

    /// The index in decimal digits.
    pub fn to_string(&self) -> (text: String)
        ensures
            text@ == decimal_digits(self.0 as nat),
    {
        let mut out = String::new();
        append_decimal(&mut out, self.0);
        assert(out@ =~= decimal_digits(self.0 as nat));
        out
    }
}

impl From<usize> for DrawableIndex {
    fn from(value: usize) -> (index: Self) {
        Self(value as u64)
    }
}

impl vstd::std_specs::convert::FromSpecImpl<usize> for DrawableIndex {
    open spec fn obeys_from_spec() -> bool {
        true
    }

    open spec fn from_spec(value: usize) -> Self {
        DrawableIndex(value as u64)
    }
}

/// A loaded model file: its format version beside the engine's own handle
/// `P` for the loaded data.
#[derive(Debug)]
pub struct Moc<P> {
    version: MocVersion,
    inner: P,
}

impl<P> Moc<P> {
    /// The format version that this value records.
    pub closed spec fn spec_version(&self) -> MocVersion {
        self.version
    }

    /// The engine's handle that this value holds.
    pub closed spec fn spec_inner(&self) -> P {
        self.inner
    }

    /// Puts a format version and the engine's handle together.
    pub fn new(version: MocVersion, inner: P) -> (moc: Self)
        ensures
            moc.spec_version() == version,
            moc.spec_inner() == inner,
    {
        Moc { version, inner }
    }

    /// The file's format version.
    pub fn version(&self) -> (version: MocVersion)
        ensures
            version == self.spec_version(),
    {
        self.version
    }

    /// The engine's handle.
    pub fn inner(&self) -> (inner: &P)
        ensures
            *inner == self.spec_inner(),
    {
        &self.inner
    }
}

} // verus!
