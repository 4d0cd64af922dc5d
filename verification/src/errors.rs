use vstd::prelude::*;

verus! {

/// A part of a `major.minor.patch` version.
#[derive(Clone, Copy, Debug, PartialEq, Eq, Structural)]
pub enum SemverPart {
    Major,
    Minor,
    Patch,
}

/// What went wrong, with the values that the message reports.
#[derive(Debug, Clone)]
pub enum ErrorKind {
    /// A file is over the size that hashing accepts.
    HashInputTooLarge { size_bytes: u64, limit_bytes: u64 },
    /// A metadata format version that is not an unsigned number.
    InvalidMetadataFormatVersion { input: String },
    /// A metadata format version other than 1 or 2.
    UnsupportedMetadataFormatVersion { version: u32 },
    /// The daemon speaks another protocol version than this client.
    DaemonProtocolMismatch { daemon_version: String },
    /// A hex digest shorter than required.
    HexDigestTooShort { len: usize, min_len: usize },
    /// A version without this part.
    SemverPartMissing { part: SemverPart },
    /// A version whose part is not an unsigned number.
    SemverPartInvalid { part: SemverPart },
    /// `scarb --version` output that does not start with `scarb`.
    UnexpectedScarbVersionOutput { line: String },
    /// `scarb --version` output without a version after `scarb`.
    MissingScarbSemverToken,
    /// `scarb --version` printed nothing usable.
    ScarbVersionOutputUnparsable,
    /// The configured minimum Scarb version is not `major.minor.patch`.
    InvalidMinScarbVersion { value: String },
    /// The Scarb version is below the configured minimum.
    ScarbVersionBelowMinimum { version: String, minimum: String },
    /// The Scarb version line lacks the expected token.
    ScarbVersionMismatch { expected: String, version: String },
    /// A manifest that lists its own package among its dependencies.
    ManifestSelfDependency { manifest_path: String, package: String, section: String },
    /// More than one `[[target.starknet-contract]]` entry.
    StarknetTargetMultipleEntries,
    /// A `[[target.starknet-contract]]` entry that is not a table.
    StarknetTargetEntryNotTable,
    /// A `target.starknet-contract` that is neither a table nor an array.
    StarknetTargetUnexpectedShape,
    /// A `sierra` setting of the Starknet target that is not a boolean.
    StarknetTargetSierraNotBool,
    /// A `casm` setting of the Starknet target that is not a boolean.
    StarknetTargetCasmNotBool,
    /// A hex digest with a character that is not a hex digit.
    HexDigestNotHex,
    /// A cached artifact path that is absolute.
    ArtifactPathAbsolute,
    /// A cached artifact path with a `..`, root or prefix component.
    ArtifactPathInvalidComponent,
    /// A cached artifact path with no normal component.
    ArtifactPathEmpty,
    /// A source file over the size that fingerprinting accepts.
    FingerprintFileTooLarge { size_bytes: u64, limit_bytes: u64 },
    /// Fingerprinted sources over the total byte budget.
    FingerprintBudgetExceeded { total_bytes: u64, limit_bytes: u64 },
    /// A cache object path that is absolute.
    CacheObjectPathAbsolute,
    /// A cache object path with a component other than a plain name.
    CacheObjectPathInvalidComponent,
    /// A path that leaves the root it must stay under.
    PathEscapesRoot { path: String, root: String },
    /// A line longer than the limit for what is read.
    LineTooLong { max_bytes: usize },
    /// A line that is not valid UTF-8.
    LineNotUtf8,
    /// More external path dependency roots than fingerprinting accepts.
    TooManyExternalPathDependencyRoots { limit: usize },
    /// The native daemon backend was disabled after a panic.
    NativeDaemonBackendPoisoned,
    /// Native compile was asked for another package than the manifest's.
    NativeRequestedPackageMismatch { package_name: String, requested_package: String },
    /// Native compile does not support `--workspace` for this manifest.
    NativeWorkspaceModeUnsupported,
    /// The build has no native compile backend.
    NativeBackendDisabled,
    /// A manifest `cairo-version` that is not an exact version.
    NativeCairoVersionConstraintUnsupported { requested: String },
    /// A manifest `cairo-version` that the native compiler cannot build.
    NativeCairoVersionIncompatible { compiler: String, requested: String },
    /// An empty native build profile.
    NativeProfileEmpty,
    /// A native build profile with a NUL character.
    NativeProfileNulByte { profile: String },
    /// A native build profile that is not a single plain name.
    NativeProfileInvalidComponent { profile: String },
    /// More tracked source files than the source tracker accepts.
    NativeTrackedSourcesTooMany { limit: usize },
    /// Tracked source files over the total byte budget.
    NativeTrackedSourcesBudgetExceeded { total_bytes: u64, limit_bytes: u64 },
    /// The source watcher reported a path that is not plainly relative.
    NativeJournalInvalidRelativePath { path: String },
    /// A changed source file could not be examined.
    NativeSourceStatFailed { path: String },
    /// A tracked source file over the size the source tracker accepts.
    NativeTrackedFileTooLarge { path: String, size_bytes: u64, limit_bytes: u64 },
    /// A changed source file whose modification time could not be read.
    NativeSourceModifiedTimeUnavailable { path: String },
    /// A tracked source key that cannot be made a clean relative path.
    NativeTrackedSourceKeyInvalid { key: String },
    /// Two tracked sources reach one canonical key with different states.
    NativeTrackedSourceKeyConflict { key: String },
    /// More Cairo files under a crate cache root than fingerprinting accepts.
    NativeCrateCacheRootTooManyFiles { limit: usize },
    /// A manifest path with no parent directory.
    ManifestPathHasNoParent,
}

/// An error of the library; `native_fallback_eligible` marks the errors
/// after which a native build may fall back to Scarb.
#[derive(Debug, Clone)]
pub struct UcError {
    pub kind: ErrorKind,
    pub native_fallback_eligible: bool,
}

/// An error that does not allow a Scarb fallback.
pub fn plain_error(kind: ErrorKind) -> (e: UcError)
    ensures
        e.kind == kind,
        !e.native_fallback_eligible,
{
    UcError { kind, native_fallback_eligible: false }
}

/// An error after which a native build may fall back to Scarb.
pub fn native_fallback_eligible_error(kind: ErrorKind) -> (e: UcError)
    ensures
        e.kind == kind,
        e.native_fallback_eligible,
{
    UcError { kind, native_fallback_eligible: true }
}

/// The same error, now allowing a Scarb fallback.
pub fn mark_native_fallback_eligible(err: UcError) -> (e: UcError)
    ensures
        e.kind == err.kind,
        e.native_fallback_eligible,
{
    UcError { kind: err.kind, native_fallback_eligible: true }
}

/// Whether a native build error allows falling back to Scarb.
pub fn native_error_allows_scarb_fallback(err: &UcError) -> (b: bool)
    ensures
        b == err.native_fallback_eligible,
{
    err.native_fallback_eligible
}

} // verus!
