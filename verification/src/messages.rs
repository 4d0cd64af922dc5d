use vstd::prelude::*;
use crate::errors::{ErrorKind, SemverPart, UcError};
use crate::native_plan::{decimal, decimal_string};
use crate::surface::copy_str;
use crate::text::push_str;
use crate::versions::DAEMON_PROTOCOL_VERSION;

verus! {

/// The name of a version part in messages.
pub open spec fn part_name(p: SemverPart) -> Seq<char> {
    match p {
        SemverPart::Major => "major"@,
        SemverPart::Minor => "minor"@,
        SemverPart::Patch => "patch"@,
    }
}

fn part_text(p: SemverPart) -> (s: &'static str)
    ensures
        s@ == part_name(p),
{
    match p {
        SemverPart::Major => "major",
        SemverPart::Minor => "minor",
        SemverPart::Patch => "patch",
    }
}

/// The message that reports an error of the given kind.
pub open spec fn error_message(kind: ErrorKind) -> Seq<char> {
    match kind {
        ErrorKind::HashInputTooLarge { size_bytes, limit_bytes } => "file exceeds hashing size limit ("@ + decimal(size_bytes as nat) + " bytes > "@ + decimal(limit_bytes as nat) + " bytes)"@,
        ErrorKind::InvalidMetadataFormatVersion { input } => "invalid metadata format version `"@ + input@ + "`"@,
        ErrorKind::UnsupportedMetadataFormatVersion { version } => "unsupported metadata format version `"@ + decimal(version as nat) + "` (expected 1 or 2)"@,
        ErrorKind::DaemonProtocolMismatch { daemon_version } => "daemon protocol mismatch (daemon="@ + daemon_version@ + ", client="@ + DAEMON_PROTOCOL_VERSION@ + ")"@,
        ErrorKind::HexDigestTooShort { len, min_len } => "digest must be at least "@ + decimal(min_len as nat) + " hex chars, got "@ + decimal(len as nat),
        ErrorKind::SemverPartMissing { part } => "missing "@ + part_name(part) + " version"@,
        ErrorKind::SemverPartInvalid { part } => "invalid "@ + part_name(part) + " version"@,
        ErrorKind::UnexpectedScarbVersionOutput { line } => "unexpected `scarb --version` output: "@ + line@,
        ErrorKind::MissingScarbSemverToken => "missing scarb semantic version token"@,
        ErrorKind::ScarbVersionOutputUnparsable => "failed to parse `scarb --version` output"@,
        ErrorKind::InvalidMinScarbVersion { value } => "invalid UC_MIN_SCARB_VERSION `"@ + value@ + "` (expected `major.minor.patch`)"@,
        ErrorKind::ScarbVersionBelowMinimum { version, minimum } => "scarb version "@ + version@ + " is below minimum required "@ + minimum@,
        ErrorKind::ScarbVersionMismatch { expected, version } => "scarb version mismatch: expected token `"@ + expected@ + "` in `"@ + version@ + "` (set by UC_EXPECT_SCARB_VERSION)"@,
        ErrorKind::ManifestSelfDependency { manifest_path, package, section } => "manifest "@ + manifest_path@ + " contains self-dependency `"@ + package@ + "` in ["@ + section@ + "]"@,
        ErrorKind::StarknetTargetMultipleEntries => "native compile supports a single [[target.starknet-contract]] entry"@,
        ErrorKind::StarknetTargetEntryNotTable => "native compile expects [[target.starknet-contract]] entries to be tables"@,
        ErrorKind::StarknetTargetUnexpectedShape => "native compile expects [target.starknet-contract] or [[target.starknet-contract]]"@,
        ErrorKind::StarknetTargetSierraNotBool => "native compile expects [target.starknet-contract].sierra to be a boolean"@,
        ErrorKind::StarknetTargetCasmNotBool => "native compile expects [target.starknet-contract].casm to be a boolean"@,
        ErrorKind::HexDigestNotHex => "digest must contain only hex characters"@,
        ErrorKind::ArtifactPathAbsolute => "cached artifact path must be relative"@,
        ErrorKind::ArtifactPathInvalidComponent => "cached artifact path contains invalid component"@,
        ErrorKind::ArtifactPathEmpty => "cached artifact path must not be empty"@,
        ErrorKind::FingerprintFileTooLarge { size_bytes, limit_bytes } => "fingerprint file exceeds size limit ("@ + decimal(size_bytes as nat) + " bytes > "@ + decimal(limit_bytes as nat) + " bytes)"@,
        ErrorKind::FingerprintBudgetExceeded { total_bytes, limit_bytes } => "fingerprint source budget exceeded ("@ + decimal(total_bytes as nat) + " bytes > "@ + decimal(limit_bytes as nat) + " bytes)"@,
        ErrorKind::CacheObjectPathAbsolute => "cache object path must be relative"@,
        ErrorKind::CacheObjectPathInvalidComponent => "cache object path contains invalid component"@,
        ErrorKind::PathEscapesRoot { path, root } => "path escapes workspace root: "@ + path@ + " not under "@ + root@,
        ErrorKind::LineTooLong { max_bytes } => "line exceeds size limit ("@ + decimal(max_bytes as nat) + " bytes)"@,
        ErrorKind::LineNotUtf8 => "line is not valid UTF-8"@,
        ErrorKind::TooManyExternalPathDependencyRoots { limit } => "workspace references more than "@ + decimal(limit as nat) + " external path dependency roots; refusing to fingerprint"@,
        ErrorKind::NativeDaemonBackendPoisoned => "native daemon backend is disabled after a previous panic; restart `uc daemon` to re-enable native requests"@,
        ErrorKind::NativeRequestedPackageMismatch { package_name, requested_package } => "native compile only supports the manifest package `"@ + package_name@ + "` (got --package `"@ + requested_package@ + "`)"@,
        ErrorKind::NativeWorkspaceModeUnsupported => "native compile does not support --workspace for multi-package or non-workspace manifests yet"@,
        ErrorKind::NativeBackendDisabled => "native compile backend is disabled at build time; rebuild uc with `native-compile` feature"@,
        ErrorKind::NativeCairoVersionConstraintUnsupported { requested } => "native compile requires an exact cairo-version (major.minor[.patch]); unsupported constraint `"@ + requested@ + "`"@,
        ErrorKind::NativeCairoVersionIncompatible { compiler, requested } => "native cairo-lang "@ + compiler@ + " is incompatible with package cairo-version "@ + requested@ + "; native requires same major and compiler minor >= requested minor"@,
        ErrorKind::NativeProfileEmpty => "native build profile must not be empty"@,
        ErrorKind::NativeProfileNulByte { profile } => "native build profile must not contain NUL bytes: "@ + profile@,
        ErrorKind::NativeProfileInvalidComponent { profile } => "native build profile contains invalid path component: "@ + profile@,
        ErrorKind::NativeTrackedSourcesTooMany { limit } => "native source tracker found too many files (>"@ + decimal(limit as nat) + "); refusing to continue"@,
        ErrorKind::NativeTrackedSourcesBudgetExceeded { total_bytes, limit_bytes } => "native source tracker budget exceeded ("@ + decimal(total_bytes as nat) + " bytes > "@ + decimal(limit_bytes as nat) + " bytes)"@,
        ErrorKind::NativeJournalInvalidRelativePath { path } => "native source watcher reported invalid relative path: "@ + path@,
        ErrorKind::NativeSourceStatFailed { path } => "failed to stat "@ + path@,
        ErrorKind::NativeTrackedFileTooLarge { path, size_bytes, limit_bytes } => "native source tracker file "@ + path@ + " exceeds size limit ("@ + decimal(size_bytes as nat) + " bytes > "@ + decimal(limit_bytes as nat) + " bytes)"@,
        ErrorKind::NativeSourceModifiedTimeUnavailable { path } => "file modified time is unavailable: "@ + path@,
        ErrorKind::NativeTrackedSourceKeyInvalid { key } => "native tracked source key contains invalid components: "@ + key@,
        ErrorKind::NativeTrackedSourceKeyConflict { key } => "duplicate canonical tracked source key with conflicting metadata: "@ + key@,
        ErrorKind::NativeCrateCacheRootTooManyFiles { limit } => "native crate cache fingerprint found too many files (>"@ + decimal(limit as nat) + ")"@,
        ErrorKind::ManifestPathHasNoParent => "manifest path has no parent"@,
    }
}

impl UcError {
    /// The message that reports this error.
    pub fn message(&self) -> (m: String)
        ensures
            m@ == error_message(self.kind),
    {
        kind_message(&self.kind)
    }
}

/// The message that reports an error of the given kind.
pub fn kind_message(kind: &ErrorKind) -> (m: String)
    ensures
        m@ == error_message(*kind),
{
    match kind {
        ErrorKind::HashInputTooLarge { size_bytes, limit_bytes } => {
            let mut s = copy_str("file exceeds hashing size limit (");
            { let d = decimal_string(*size_bytes as u64); push_str(&mut s, d.as_str()); }
            push_str(&mut s, " bytes > ");
            { let d = decimal_string(*limit_bytes as u64); push_str(&mut s, d.as_str()); }
            push_str(&mut s, " bytes)");
            s
        },
        ErrorKind::InvalidMetadataFormatVersion { input } => {
            let mut s = copy_str("invalid metadata format version `");
            push_str(&mut s, input.as_str());
            push_str(&mut s, "`");
            s
        },
        ErrorKind::UnsupportedMetadataFormatVersion { version } => {
            let mut s = copy_str("unsupported metadata format version `");
            { let d = decimal_string(*version as u64); push_str(&mut s, d.as_str()); }
            push_str(&mut s, "` (expected 1 or 2)");
            s
        },
        ErrorKind::DaemonProtocolMismatch { daemon_version } => {
            let mut s = copy_str("daemon protocol mismatch (daemon=");
            push_str(&mut s, daemon_version.as_str());
            push_str(&mut s, ", client=");
            push_str(&mut s, DAEMON_PROTOCOL_VERSION);
            push_str(&mut s, ")");
            s
        },
        ErrorKind::HexDigestTooShort { len, min_len } => {
            let mut s = copy_str("digest must be at least ");
            { let d = decimal_string(*min_len as u64); push_str(&mut s, d.as_str()); }
            push_str(&mut s, " hex chars, got ");
            { let d = decimal_string(*len as u64); push_str(&mut s, d.as_str()); }
            s
        },
        ErrorKind::SemverPartMissing { part } => {
            let mut s = copy_str("missing ");
            push_str(&mut s, part_text(*part));
            push_str(&mut s, " version");
            s
        },
        ErrorKind::SemverPartInvalid { part } => {
            let mut s = copy_str("invalid ");
            push_str(&mut s, part_text(*part));
            push_str(&mut s, " version");
            s
        },
        ErrorKind::UnexpectedScarbVersionOutput { line } => {
            let mut s = copy_str("unexpected `scarb --version` output: ");
            push_str(&mut s, line.as_str());
            s
        },
        ErrorKind::MissingScarbSemverToken => {
            let mut s = copy_str("missing scarb semantic version token");
            s
        },
        ErrorKind::ScarbVersionOutputUnparsable => {
            let mut s = copy_str("failed to parse `scarb --version` output");
            s
        },
        ErrorKind::InvalidMinScarbVersion { value } => {
            let mut s = copy_str("invalid UC_MIN_SCARB_VERSION `");
            push_str(&mut s, value.as_str());
            push_str(&mut s, "` (expected `major.minor.patch`)");
            s
        },
        ErrorKind::ScarbVersionBelowMinimum { version, minimum } => {
            let mut s = copy_str("scarb version ");
            push_str(&mut s, version.as_str());
            push_str(&mut s, " is below minimum required ");
            push_str(&mut s, minimum.as_str());
            s
        },
        ErrorKind::ScarbVersionMismatch { expected, version } => {
            let mut s = copy_str("scarb version mismatch: expected token `");
            push_str(&mut s, expected.as_str());
            push_str(&mut s, "` in `");
            push_str(&mut s, version.as_str());
            push_str(&mut s, "` (set by UC_EXPECT_SCARB_VERSION)");
            s
        },
        ErrorKind::ManifestSelfDependency { manifest_path, package, section } => {
            let mut s = copy_str("manifest ");
            push_str(&mut s, manifest_path.as_str());
            push_str(&mut s, " contains self-dependency `");
            push_str(&mut s, package.as_str());
            push_str(&mut s, "` in [");
            push_str(&mut s, section.as_str());
            push_str(&mut s, "]");
            s
        },
        ErrorKind::StarknetTargetMultipleEntries => {
            let mut s = copy_str("native compile supports a single [[target.starknet-contract]] entry");
            s
        },
        ErrorKind::StarknetTargetEntryNotTable => {
            let mut s = copy_str("native compile expects [[target.starknet-contract]] entries to be tables");
            s
        },
        ErrorKind::StarknetTargetUnexpectedShape => {
            let mut s = copy_str("native compile expects [target.starknet-contract] or [[target.starknet-contract]]");
            s
        },
        ErrorKind::StarknetTargetSierraNotBool => {
            let mut s = copy_str("native compile expects [target.starknet-contract].sierra to be a boolean");
            s
        },
        ErrorKind::StarknetTargetCasmNotBool => {
            let mut s = copy_str("native compile expects [target.starknet-contract].casm to be a boolean");
            s
        },
        ErrorKind::HexDigestNotHex => {
            let mut s = copy_str("digest must contain only hex characters");
            s
        },
        ErrorKind::ArtifactPathAbsolute => {
            let mut s = copy_str("cached artifact path must be relative");
            s
        },
        ErrorKind::ArtifactPathInvalidComponent => {
            let mut s = copy_str("cached artifact path contains invalid component");
            s
        },
        ErrorKind::ArtifactPathEmpty => {
            let mut s = copy_str("cached artifact path must not be empty");
            s
        },
        ErrorKind::FingerprintFileTooLarge { size_bytes, limit_bytes } => {
            let mut s = copy_str("fingerprint file exceeds size limit (");
            { let d = decimal_string(*size_bytes as u64); push_str(&mut s, d.as_str()); }
            push_str(&mut s, " bytes > ");
            { let d = decimal_string(*limit_bytes as u64); push_str(&mut s, d.as_str()); }
            push_str(&mut s, " bytes)");
            s
        },
        ErrorKind::FingerprintBudgetExceeded { total_bytes, limit_bytes } => {
            let mut s = copy_str("fingerprint source budget exceeded (");
            { let d = decimal_string(*total_bytes as u64); push_str(&mut s, d.as_str()); }
            push_str(&mut s, " bytes > ");
            { let d = decimal_string(*limit_bytes as u64); push_str(&mut s, d.as_str()); }
            push_str(&mut s, " bytes)");
            s
        },
        ErrorKind::CacheObjectPathAbsolute => {
            let mut s = copy_str("cache object path must be relative");
            s
        },
        ErrorKind::CacheObjectPathInvalidComponent => {
            let mut s = copy_str("cache object path contains invalid component");
            s
        },
        ErrorKind::PathEscapesRoot { path, root } => {
            let mut s = copy_str("path escapes workspace root: ");
            push_str(&mut s, path.as_str());
            push_str(&mut s, " not under ");
            push_str(&mut s, root.as_str());
            s
        },
        ErrorKind::LineTooLong { max_bytes } => {
            let mut s = copy_str("line exceeds size limit (");
            { let d = decimal_string(*max_bytes as u64); push_str(&mut s, d.as_str()); }
            push_str(&mut s, " bytes)");
            s
        },
        ErrorKind::LineNotUtf8 => {
            let mut s = copy_str("line is not valid UTF-8");
            s
        },
        ErrorKind::TooManyExternalPathDependencyRoots { limit } => {
            let mut s = copy_str("workspace references more than ");
            { let d = decimal_string(*limit as u64); push_str(&mut s, d.as_str()); }
            push_str(&mut s, " external path dependency roots; refusing to fingerprint");
            s
        },
        ErrorKind::NativeDaemonBackendPoisoned => {
            let mut s = copy_str("native daemon backend is disabled after a previous panic; restart `uc daemon` to re-enable native requests");
            s
        },
        ErrorKind::NativeRequestedPackageMismatch { package_name, requested_package } => {
            let mut s = copy_str("native compile only supports the manifest package `");
            push_str(&mut s, package_name.as_str());
            push_str(&mut s, "` (got --package `");
            push_str(&mut s, requested_package.as_str());
            push_str(&mut s, "`)");
            s
        },
        ErrorKind::NativeWorkspaceModeUnsupported => {
            let mut s = copy_str("native compile does not support --workspace for multi-package or non-workspace manifests yet");
            s
        },
        ErrorKind::NativeBackendDisabled => {
            let mut s = copy_str("native compile backend is disabled at build time; rebuild uc with `native-compile` feature");
            s
        },
        ErrorKind::NativeCairoVersionConstraintUnsupported { requested } => {
            let mut s = copy_str("native compile requires an exact cairo-version (major.minor[.patch]); unsupported constraint `");
            push_str(&mut s, requested.as_str());
            push_str(&mut s, "`");
            s
        },
        ErrorKind::NativeCairoVersionIncompatible { compiler, requested } => {
            let mut s = copy_str("native cairo-lang ");
            push_str(&mut s, compiler.as_str());
            push_str(&mut s, " is incompatible with package cairo-version ");
            push_str(&mut s, requested.as_str());
            push_str(&mut s, "; native requires same major and compiler minor >= requested minor");
            s
        },
        ErrorKind::NativeProfileEmpty => {
            let mut s = copy_str("native build profile must not be empty");
            s
        },
        ErrorKind::NativeProfileNulByte { profile } => {
            let mut s = copy_str("native build profile must not contain NUL bytes: ");
            push_str(&mut s, profile.as_str());
            s
        },
        ErrorKind::NativeProfileInvalidComponent { profile } => {
            let mut s = copy_str("native build profile contains invalid path component: ");
            push_str(&mut s, profile.as_str());
            s
        },
        ErrorKind::NativeTrackedSourcesTooMany { limit } => {
            let mut s = copy_str("native source tracker found too many files (>");
            { let d = decimal_string(*limit as u64); push_str(&mut s, d.as_str()); }
            push_str(&mut s, "); refusing to continue");
            s
        },
        ErrorKind::NativeTrackedSourcesBudgetExceeded { total_bytes, limit_bytes } => {
            let mut s = copy_str("native source tracker budget exceeded (");
            { let d = decimal_string(*total_bytes as u64); push_str(&mut s, d.as_str()); }
            push_str(&mut s, " bytes > ");
            { let d = decimal_string(*limit_bytes as u64); push_str(&mut s, d.as_str()); }
            push_str(&mut s, " bytes)");
            s
        },
        ErrorKind::NativeJournalInvalidRelativePath { path } => {
            let mut s = copy_str("native source watcher reported invalid relative path: ");
            push_str(&mut s, path.as_str());
            s
        },
        ErrorKind::NativeSourceStatFailed { path } => {
            let mut s = copy_str("failed to stat ");
            push_str(&mut s, path.as_str());
            s
        },
        ErrorKind::NativeTrackedFileTooLarge { path, size_bytes, limit_bytes } => {
            let mut s = copy_str("native source tracker file ");
            push_str(&mut s, path.as_str());
            push_str(&mut s, " exceeds size limit (");
            { let d = decimal_string(*size_bytes as u64); push_str(&mut s, d.as_str()); }
            push_str(&mut s, " bytes > ");
            { let d = decimal_string(*limit_bytes as u64); push_str(&mut s, d.as_str()); }
            push_str(&mut s, " bytes)");
            s
        },
        ErrorKind::NativeSourceModifiedTimeUnavailable { path } => {
            let mut s = copy_str("file modified time is unavailable: ");
            push_str(&mut s, path.as_str());
            s
        },
        ErrorKind::NativeTrackedSourceKeyInvalid { key } => {
            let mut s = copy_str("native tracked source key contains invalid components: ");
            push_str(&mut s, key.as_str());
            s
        },
        ErrorKind::NativeTrackedSourceKeyConflict { key } => {
            let mut s = copy_str("duplicate canonical tracked source key with conflicting metadata: ");
            push_str(&mut s, key.as_str());
            s
        },
        ErrorKind::NativeCrateCacheRootTooManyFiles { limit } => {
            let mut s = copy_str("native crate cache fingerprint found too many files (>");
            { let d = decimal_string(*limit as u64); push_str(&mut s, d.as_str()); }
            push_str(&mut s, ")");
            s
        },
        ErrorKind::ManifestPathHasNoParent => {
            let mut s = copy_str("manifest path has no parent");
            s
        },
    }
}

} // verus!
