use vstd::prelude::*;
use crate::native_plan::{decimal, decimal_string};
use crate::protocol::{BuildCommonArgs, MetadataArgs};
use crate::surface::{copy_str, strings_view};
use crate::text::push_str;

verus! {

/// The parts joined by `sep`.
pub open spec fn joined(parts: Seq<Seq<char>>, sep: Seq<char>) -> Seq<char>
    decreases parts.len(),
{
    if parts.len() == 0 {
        Seq::empty()
    } else if parts.len() == 1 {
        parts[0]
    } else {
        joined(parts.drop_last(), sep) + sep + parts.last()
    }
}

/// `flag` when `on`, nothing otherwise.
pub open spec fn flag_arg(on: bool, flag: Seq<char>) -> Seq<Seq<char>> {
    if on {
        seq![flag]
    } else {
        Seq::empty()
    }
}

/// `flag value` when there is a value, nothing otherwise.
pub open spec fn value_arg(value: Option<String>, flag: Seq<char>) -> Seq<Seq<char>> {
    match value {
        Some(v) => seq![flag, v@],
        None => Seq::empty(),
    }
}

/// The command line of `scarb build` for a build: the manifest, the
/// offline, release and profile options, then `build` with the package,
/// workspace and comma-joined features.
pub open spec fn build_argv(common: BuildCommonArgs, manifest_path: Seq<char>) -> Seq<Seq<char>> {
    seq!["scarb"@, "--manifest-path"@, manifest_path] + flag_arg(common.offline, "--offline"@)
        + flag_arg(common.release, "--release"@) + value_arg(common.profile, "--profile"@) + seq![
        "build"@,
    ] + value_arg(common.package, "--package"@) + flag_arg(common.workspace, "--workspace"@) + (
    if common.features@.len() > 0 {
        seq!["--features"@, joined(strings_view(common.features@), ","@)]
    } else {
        Seq::empty()
    })
}

/// The command line of `scarb metadata` for a metadata request.
pub open spec fn metadata_argv(args: MetadataArgs, manifest_path: Seq<char>) -> Seq<Seq<char>> {
    seq!["scarb"@, "--manifest-path"@, manifest_path] + flag_arg(args.offline, "--offline"@)
        + value_arg(args.global_cache_dir, "--global-cache-dir"@) + seq![
        "metadata"@,
        "--format-version"@,
        decimal(args.format_version as nat),
    ]
}

/// Where `build` stands in the `scarb build` command line: after the
/// three leading words and the global options.
pub open spec fn build_word_index(common: BuildCommonArgs) -> int {
    3 + (if common.offline { 1int } else { 0 }) + (if common.release { 1int } else { 0 }) + (if common.profile
        is Some {
        2int
    } else {
        0
    })
}

/// The `scarb build` command line runs `scarb` on the given manifest; each
/// global option (offline, release, profile) comes before `build` and each
/// build option (package, workspace, features) after it; the features are
/// passed last, joined with commas; nothing is passed that was not asked
/// for, so a build with no options is exactly
/// `scarb --manifest-path <manifest> build`.
pub proof fn lemma_build_argv_shape(common: BuildCommonArgs, manifest_path: Seq<char>)
    ensures
        ({
            let a = build_argv(common, manifest_path);
            let k = build_word_index(common);
            &&& a.take(3) == seq!["scarb"@, "--manifest-path"@, manifest_path]
            &&& a[k] == "build"@
            &&& common.offline ==> a[3] == "--offline"@
            &&& common.release ==> a[3 + (if common.offline { 1int } else { 0 })] == "--release"@
            &&& common.profile matches Some(p) ==> a[k - 2] == "--profile"@ && a[k - 1] == p@
            &&& common.package matches Some(p) ==> a[k + 1] == "--package"@ && a[k + 2] == p@
            &&& common.features@.len() > 0 ==> a[a.len() - 2] == "--features"@ && a.last() == joined(
                strings_view(common.features@),
                ","@,
            )
            &&& a.len() == k + 1 + (if common.package is Some { 2int } else { 0 }) + (if common.workspace {
                1int
            } else {
                0
            }) + (if common.features@.len() > 0 {
                2int
            } else {
                0
            })
        }),
{
}

fn push_lit(argv: &mut Vec<String>, lit: &str)
    ensures
        strings_view(final(argv)@) == strings_view(old(argv)@).push(lit@),
{
    let ghost before = argv@;
    argv.push(copy_str(lit));
    assert(strings_view(argv@) =~= strings_view(before).push(lit@));
}

fn push_opt(argv: &mut Vec<String>, value: &Option<String>, flag: &str)
    ensures
        strings_view(final(argv)@) == strings_view(old(argv)@) + value_arg(*value, flag@),
{
    let ghost before = argv@;
    match value {
        Some(v) => {
            push_lit(argv, flag);
            push_lit(argv, v.as_str());
        },
        None => {},
    }
    assert(strings_view(argv@) =~= strings_view(before) + value_arg(*value, flag@));
}

fn push_flag(argv: &mut Vec<String>, on: bool, flag: &str)
    ensures
        strings_view(final(argv)@) == strings_view(old(argv)@) + flag_arg(on, flag@),
{
    let ghost before = argv@;
    if on {
        push_lit(argv, flag);
    }
    assert(strings_view(argv@) =~= strings_view(before) + flag_arg(on, flag@));
}

/// The parts of `v` joined by `sep`.
pub fn join_strings(v: &Vec<String>, sep: &str) -> (s: String)
    ensures
        s@ == joined(strings_view(v@), sep@),
{
    let mut s = String::new();
    let mut i: usize = 0;
    while i < v.len()
        invariant
            i <= v@.len(),
            s@ == joined(strings_view(v@).take(i as int), sep@),
        decreases v@.len() - i,
    {
        let ghost parts = strings_view(v@).take(i + 1);
        assert(parts.drop_last() =~= strings_view(v@).take(i as int));
        if i > 0 {
            push_str(&mut s, sep);
        } else {
            assert(strings_view(v@).take(0) =~= Seq::<Seq<char>>::empty());
        }
        push_str(&mut s, v[i].as_str());
        i = i + 1;
    }
    assert(strings_view(v@).take(i as int) =~= strings_view(v@));
    s
}

/// The command line of `scarb build` for a build, and the value it gets for
/// `SCARB_ARTIFACTS_FINGERPRINT` (`0` when artifact fingerprints are
/// disabled, `1` otherwise).
pub fn scarb_build_command(
    common: &BuildCommonArgs,
    manifest_path: &str,
    disable_artifacts_fingerprint: bool,
) -> (r: (Vec<String>, String))
    ensures
        strings_view(r.0@) == build_argv(*common, manifest_path@),
        r.1@ == (if disable_artifacts_fingerprint {
            "0"@
        } else {
            "1"@
        }),
{
    let fingerprint = if disable_artifacts_fingerprint {
        String::from_str("0")
    } else {
        String::from_str("1")
    };
    let mut argv: Vec<String> = Vec::new();
    push_lit(&mut argv, "scarb");
    push_lit(&mut argv, "--manifest-path");
    push_lit(&mut argv, manifest_path);
    push_flag(&mut argv, common.offline, "--offline");
    push_flag(&mut argv, common.release, "--release");
    push_opt(&mut argv, &common.profile, "--profile");
    push_lit(&mut argv, "build");
    push_opt(&mut argv, &common.package, "--package");
    push_flag(&mut argv, common.workspace, "--workspace");
    let ghost before = argv@;
    if common.features.len() > 0 {
        let features = join_strings(&common.features, ",");
        push_lit(&mut argv, "--features");
        push_lit(&mut argv, features.as_str());
    }
    assert(strings_view(argv@) =~= build_argv(*common, manifest_path@));
    (argv, fingerprint)
}

/// The command line of `scarb metadata` for a metadata request.
pub fn scarb_metadata_command(args: &MetadataArgs, manifest_path: &str) -> (argv: Vec<String>)
    ensures
        strings_view(argv@) == metadata_argv(*args, manifest_path@),
{
    let mut argv: Vec<String> = Vec::new();
    push_lit(&mut argv, "scarb");
    push_lit(&mut argv, "--manifest-path");
    push_lit(&mut argv, manifest_path);
    push_flag(&mut argv, args.offline, "--offline");
    push_opt(&mut argv, &args.global_cache_dir, "--global-cache-dir");
    push_lit(&mut argv, "metadata");
    push_lit(&mut argv, "--format-version");
    let version = decimal_string(args.format_version as u64);
    push_lit(&mut argv, version.as_str());
    assert(strings_view(argv@) =~= metadata_argv(*args, manifest_path@));
    argv
}

} // verus!
