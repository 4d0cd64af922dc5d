use vstd::prelude::*;
use crate::errors::{native_fallback_eligible_error, ErrorKind, UcError};
use crate::text::{chars_of, is_ascii_alphanumeric, is_ascii_digit, push_char, push_str, str_eq, string_from_chars};
use crate::versions::{cairo_major_minor, parse_cairo_version_major_minor};

verus! {

/// Whether the native daemon backend was disabled after a panic.
pub struct NativeDaemonBackendState {
    pub poisoned: bool,
}

/// Whether native daemon builds are disabled.
pub fn native_daemon_backend_is_poisoned(state: &NativeDaemonBackendState) -> (b: bool)
    ensures
        b == state.poisoned,
{
    state.poisoned
}

/// Disables native daemon builds until the daemon restarts.
pub fn mark_native_daemon_backend_poisoned(state: &mut NativeDaemonBackendState)
    ensures
        final(state).poisoned,
{
    state.poisoned = true;
}

/// Sets whether native daemon builds are disabled.
pub fn set_native_daemon_backend_poisoned_for_test(state: &mut NativeDaemonBackendState, value: bool)
    ensures
        final(state).poisoned == value,
{
    state.poisoned = value;
}

/// Refuses native daemon builds once the backend is disabled; the refusal
/// allows a Scarb fallback.
pub fn ensure_native_daemon_backend_available(state: &NativeDaemonBackendState) -> (r: Result<
    (),
    UcError,
>)
    ensures
        !state.poisoned ==> r is Ok,
        state.poisoned ==> r is Err && r->Err_0.kind == ErrorKind::NativeDaemonBackendPoisoned
            && r->Err_0.native_fallback_eligible,
{
    if native_daemon_backend_is_poisoned(state) {
        return Err(native_fallback_eligible_error(ErrorKind::NativeDaemonBackendPoisoned));
    }
    Ok(())
}

/// The native preflight of a build without a native backend: it always
/// refuses, allowing the Scarb fallback.
pub fn native_compile_preflight() -> (r: Result<(), UcError>)
    ensures
        r is Err && r->Err_0.kind == ErrorKind::NativeBackendDisabled
            && r->Err_0.native_fallback_eligible,
{
    Err(native_fallback_eligible_error(ErrorKind::NativeBackendDisabled))
}

/// Native compile builds only the manifest's own package.
pub fn validate_native_requested_package(requested_package: Option<&str>, package_name: &str) -> (r:
    Result<(), UcError>)
    ensures
        match requested_package {
            None => r is Ok,
            Some(p) => if p@ == package_name@ {
                r is Ok
            } else {
                r is Err && r->Err_0.native_fallback_eligible && (r->Err_0.kind matches ErrorKind::NativeRequestedPackageMismatch {
                    package_name: n,
                    requested_package: q,
                } && n@ == package_name@ && q@ == p@)
            },
        },
{
    if let Some(requested) = requested_package {
        if !str_eq(requested, package_name) {
            let n = chars_of(package_name);
            let q = chars_of(requested);
            return Err(
                native_fallback_eligible_error(
                    ErrorKind::NativeRequestedPackageMismatch {
                        package_name: string_from_chars(&n),
                        requested_package: string_from_chars(&q),
                    },
                ),
            );
        }
    }
    Ok(())
}

/// Native compile supports `--workspace` only for a single-package workspace.
pub fn validate_native_workspace_mode(workspace_requested: bool, workspace_mode_supported: bool) -> (r:
    Result<(), UcError>)
    ensures
        !(workspace_requested && !workspace_mode_supported) ==> r is Ok,
        workspace_requested && !workspace_mode_supported ==> r is Err && r->Err_0.kind
            == ErrorKind::NativeWorkspaceModeUnsupported && r->Err_0.native_fallback_eligible,
{
    if workspace_requested && !workspace_mode_supported {
        return Err(native_fallback_eligible_error(ErrorKind::NativeWorkspaceModeUnsupported));
    }
    Ok(())
}

/// Whether the native compiler can build a package that asks for Cairo
/// `requested`: an unreadable request is refused, an unreadable compiler
/// version accepts, and otherwise the majors must agree and the compiler's
/// minor be at least the requested one.
pub open spec fn cairo_version_check(requested: Seq<char>, compiler: Seq<char>) -> Option<bool> {
    match cairo_major_minor(requested) {
        None => None,
        Some((rmaj, rmin)) => match cairo_major_minor(compiler) {
            None => Some(true),
            Some((cmaj, cmin)) => Some(cmaj == rmaj && cmin >= rmin),
        },
    }
}

/// Checks a manifest's `cairo-version` (if it has one) against the native
/// compiler's version; both refusals allow a Scarb fallback.
pub fn ensure_native_manifest_cairo_version_supported(requested: Option<&str>, compiler: &str) -> (r:
    Result<(), UcError>)
    ensures
        match requested {
            None => r is Ok,
            Some(q) => match cairo_version_check(q@, compiler@) {
                None => r is Err && r->Err_0.native_fallback_eligible && (r->Err_0.kind matches ErrorKind::NativeCairoVersionConstraintUnsupported {
                    requested: x,
                } && x@ == q@),
                Some(true) => r is Ok,
                Some(false) => r is Err && r->Err_0.native_fallback_eligible && (r->Err_0.kind matches ErrorKind::NativeCairoVersionIncompatible {
                    compiler: c,
                    requested: x,
                } && c@ == compiler@ && x@ == q@),
            },
        },
{
    let q = match requested {
        None => {
            return Ok(());
        },
        Some(q) => q,
    };
    let qv = chars_of(q);
    let (rmaj, rmin) = match parse_cairo_version_major_minor(q) {
        None => {
            return Err(
                native_fallback_eligible_error(
                    ErrorKind::NativeCairoVersionConstraintUnsupported {
                        requested: string_from_chars(&qv),
                    },
                ),
            );
        },
        Some(v) => v,
    };
    let (cmaj, cmin) = match parse_cairo_version_major_minor(compiler) {
        None => {
            return Ok(());
        },
        Some(v) => v,
    };
    if cmaj == rmaj && cmin >= rmin {
        return Ok(());
    }
    let cv = chars_of(compiler);
    Err(
        native_fallback_eligible_error(
            ErrorKind::NativeCairoVersionIncompatible {
                compiler: string_from_chars(&cv),
                requested: string_from_chars(&qv),
            },
        ),
    )
}

/// Whether a corelib candidate matches the compiler: a corelib whose
/// manifest names no version is accepted, any other must name `expected`.
pub fn native_corelib_version_matches_compiler(found: Option<&str>, expected: &str) -> (b: bool)
    ensures
        b == match found {
            None => true,
            Some(f) => f@ == expected@,
        },
{
    match found {
        None => true,
        Some(f) => str_eq(f, expected),
    }
}

/// `c` if it may stand in an identifier as it is, else `_`.
pub open spec fn ident_char(c: char) -> char {
    if is_ascii_alphanumeric(c) || c == '_' {
        c
    } else {
        '_'
    }
}

/// Every character of `s` replaced by `ident_char`.
pub open spec fn ident_chars(s: Seq<char>) -> Seq<char> {
    s.map_values(|c: char| ident_char(c))
}

fn ident_string(raw: &str) -> (s: String)
    ensures
        s@ == ident_chars(raw@),
{
    let chars = chars_of(raw);
    let mut s = String::new();
    let mut i: usize = 0;
    while i < chars.len()
        invariant
            i <= chars@.len(),
            chars@ == raw@,
            s@ == ident_chars(chars@.take(i as int)),
        decreases chars@.len() - i,
    {
        let c = chars[i];
        let keep = ('0' <= c && c <= '9') || ('a' <= c && c <= 'z') || ('A' <= c && c <= 'Z') || c
            == '_';
        push_char(&mut s, if keep { c } else { '_' });
        i = i + 1;
        assert(s@ =~= ident_chars(chars@.take(i as int)));
    }
    assert(chars@.take(i as int) =~= chars@);
    s
}

/// The Cairo crate key of a package: its name with every character other
/// than ASCII letters, digits and `_` replaced by `_`; `crate` for an empty
/// name; and a leading `_` before a leading digit.
pub open spec fn cairo_crate_key(package_name: Seq<char>) -> Seq<char> {
    let n = ident_chars(package_name);
    if n.len() == 0 {
        "crate"@
    } else if is_ascii_digit(n[0]) {
        seq!['_'] + n
    } else {
        n
    }
}

/// Maps a package name to a safe Cairo crate key.
pub fn normalize_package_name_for_cairo_crate(package_name: &str) -> (k: String)
    ensures
        k@ == cairo_crate_key(package_name@),
{
    let normalized = ident_string(package_name);
    let n = chars_of(normalized.as_str());
    if n.len() == 0 {
        return String::from_str("crate");
    }
    if '0' <= n[0] && n[0] <= '9' {
        let mut k = String::from_str("_");
        push_str(&mut k, normalized.as_str());
        proof {
            reveal_strlit("_");
            assert("_"@ =~= seq!['_']);
        }
        return k;
    }
    normalized
}

/// An artifact file name component: the raw text with every character other
/// than ASCII letters, digits and `_` replaced by `_`; `contract` when empty.
pub open spec fn artifact_component(raw: Seq<char>) -> Seq<char> {
    if raw.len() == 0 {
        "contract"@
    } else {
        ident_chars(raw)
    }
}

/// Makes a name safe to use in a generated artifact file name.
pub fn sanitize_artifact_component(raw: &str) -> (s: String)
    ensures
        s@ == artifact_component(raw@),
{
    let value = ident_string(raw);
    let v = chars_of(value.as_str());
    if v.len() == 0 {
        return String::from_str("contract");
    }
    value
}

/// Whether `c` is a Unicode control character (general category `Cc`).
pub open spec fn is_control(c: char) -> bool {
    (c as u32) <= 0x1f || (0x7f <= (c as u32) && (c as u32) <= 0x9f)
}

pub open spec fn upper_hex_digit(d: nat) -> char {
    if d < 10 {
        ((d + 0x30) as u32) as char
    } else {
        ((d - 10 + 0x41) as u32) as char
    }
}

/// `\uXXXX` with the code point of `c` in four uppercase hex digits.
pub open spec fn unicode_escape(c: char) -> Seq<char> {
    let v = c as u32 as nat;
    seq![
        '\\',
        'u',
        upper_hex_digit((v / 4096) % 16),
        upper_hex_digit((v / 256) % 16),
        upper_hex_digit((v / 16) % 16),
        upper_hex_digit(v % 16),
    ]
}

/// How one character is written inside a TOML basic string.
pub open spec fn toml_escape_char(c: char) -> Seq<char> {
    if c == '\\' {
        "\\\\"@
    } else if c == '"' {
        "\\\""@
    } else if c == '\u{08}' {
        "\\b"@
    } else if c == '\u{0C}' {
        "\\f"@
    } else if c == '\n' {
        "\\n"@
    } else if c == '\r' {
        "\\r"@
    } else if c == '\t' {
        "\\t"@
    } else if is_control(c) {
        unicode_escape(c)
    } else {
        seq![c]
    }
}

/// The escapes of the characters of `s`, in order.
pub open spec fn toml_escaped(s: Seq<char>) -> Seq<char>
    decreases s.len(),
{
    if s.len() == 0 {
        Seq::empty()
    } else {
        toml_escaped(s.drop_last()) + toml_escape_char(s.last())
    }
}

fn hex_digit_char(d: u32) -> (c: char)
    requires
        d < 16,
    ensures
        c == upper_hex_digit(d as nat),
{
    if d < 10 {
        ((d + 0x30) as u8) as char
    } else {
        ((d - 10 + 0x41) as u8) as char
    }
}

/// Escapes text for a TOML basic string: backslash, quote and the named
/// control characters get their short escapes, other control characters a
/// `\uXXXX` escape, and everything else stays.
pub fn toml_escape_basic_string(raw: &str) -> (escaped: String)
    ensures
        escaped@ == toml_escaped(raw@),
{
    let chars = chars_of(raw);
    let mut escaped = String::new();
    let mut i: usize = 0;
    while i < chars.len()
        invariant
            i <= chars@.len(),
            chars@ == raw@,
            escaped@ == toml_escaped(chars@.take(i as int)),
        decreases chars@.len() - i,
    {
        let c = chars[i];
        let ghost before = escaped@;
        if c == '\\' {
            push_str(&mut escaped, "\\\\");
        } else if c == '"' {
            push_str(&mut escaped, "\\\"");
        } else if c == '\u{08}' {
            push_str(&mut escaped, "\\b");
        } else if c == '\u{0C}' {
            push_str(&mut escaped, "\\f");
        } else if c == '\n' {
            push_str(&mut escaped, "\\n");
        } else if c == '\r' {
            push_str(&mut escaped, "\\r");
        } else if c == '\t' {
            push_str(&mut escaped, "\\t");
        } else if (c as u32) <= 0x1f || (0x7f <= (c as u32) && (c as u32) <= 0x9f) {
            let v: u32 = c as u32;
            push_str(&mut escaped, "\\u");
            push_char(&mut escaped, hex_digit_char((v / 4096) % 16));
            push_char(&mut escaped, hex_digit_char((v / 256) % 16));
            push_char(&mut escaped, hex_digit_char((v / 16) % 16));
            push_char(&mut escaped, hex_digit_char(v % 16));
            proof {
                reveal_strlit("\\u");
                assert(escaped@ =~= before + unicode_escape(c));
            }
        } else {
            push_char(&mut escaped, c);
            assert(escaped@ =~= before + seq![c]);
        }
        proof {
            assert(chars@.take(i + 1).drop_last() =~= chars@.take(i as int));
            assert(escaped@ =~= toml_escaped(chars@.take(i + 1)));
        }
        i = i + 1;
    }
    assert(chars@.take(i as int) =~= chars@);
    escaped
}

/// Whether `c` may stand in a TOML bare key and in an artifact name.
pub open spec fn is_ident_char(c: char) -> bool {
    is_ascii_alphanumeric(c) || c == '_'
}

/// A crate key is a safe TOML bare key: non-empty, made of ASCII letters,
/// digits and `_` only, and not starting with a digit.
pub proof fn lemma_cairo_crate_key_is_bare_key(package_name: Seq<char>)
    ensures
        cairo_crate_key(package_name).len() > 0,
        forall|i: int|
            0 <= i < cairo_crate_key(package_name).len() ==> is_ident_char(
                #[trigger] cairo_crate_key(package_name)[i],
            ),
        !is_ascii_digit(cairo_crate_key(package_name)[0]),
{
    reveal_strlit("crate");
    let n = ident_chars(package_name);
    let k = cairo_crate_key(package_name);
    assert forall|i: int| 0 <= i < n.len() implies is_ident_char(#[trigger] n[i]) by {}
    if n.len() > 0 && is_ascii_digit(n[0]) {
        assert forall|i: int| 0 <= i < k.len() implies is_ident_char(#[trigger] k[i]) by {
            if i > 0 {
                assert(k[i] == n[i - 1]);
            }
        }
    }
}

/// An artifact name component is non-empty and made of ASCII letters,
/// digits and `_` only.
pub proof fn lemma_artifact_component_is_safe(raw: Seq<char>)
    ensures
        artifact_component(raw).len() > 0,
        forall|i: int|
            0 <= i < artifact_component(raw).len() ==> is_ident_char(
                #[trigger] artifact_component(raw)[i],
            ),
{
    reveal_strlit("contract");
}

} // verus!
