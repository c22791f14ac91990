//! Installer packaging decisions: which bundle is the main application,
//! what the artifact files are called, the component property list that
//! pins the install location, and the mount point reported by the disk
//! image tool.  Running the tools is the host's business.

use vstd::prelude::*;
use vstd::string::StrSliceExecFns;
use vstd::string::StringExecFns;
use crate::text::spec_contains;
use crate::text::spec_match_at;

verus! {

/// A directory entry name is an application bundle.
pub open spec fn spec_is_app_bundle(name: Seq<char>) -> bool {
    name.len() >= 4 && name.subrange(name.len() - 4, name.len() as int) == ".app"@
}

/// A bundle name that marks a helper rather than the main application.
/// The check runs on the lower-cased name.
pub open spec fn spec_is_helper_bundle(lower: Seq<char>) -> bool {
    spec_contains(lower, "helper"@) || spec_contains(lower, "plugin"@) || spec_contains(
        lower,
        "renderer"@,
    ) || spec_contains(lower, "gpu"@)
}

/// Whether `name` ends in `.app`.
pub fn is_app_bundle(name: &str) -> (r: bool)
    ensures
        r == spec_is_app_bundle(name@),
{
    let n = name.unicode_len();
    if n < 4 {
        return false;
    }
    proof {
        reveal_strlit(".app");
    }
    let r = crate::text::matches_at(name, n - 4, ".app");
    proof {
        assert(spec_match_at(name@, n as int - 4, ".app"@) == spec_is_app_bundle(name@));
    }
    r
}

/// Picks the main application bundle out of directory entry names, given
/// their lower-cased forms: the first `.app` entry that carries no helper
/// marker; failing that, the first `.app` entry of any kind.
///
/// The caller supplies `lowered[i]` as the lower-cased form of `names[i]`;
/// the choice itself is exact.
pub fn pick_app_name(names: &Vec<String>, lowered: &Vec<String>) -> (r: Option<usize>)
    requires
        names@.len() == lowered@.len(),
    ensures
        match r {
            Some(ix) => {
                &&& ix < names@.len()
                &&& spec_is_app_bundle(names@[ix as int]@)
                &&& (!spec_is_helper_bundle(lowered@[ix as int]@) ==> forall|j: int|
                    0 <= j < ix ==> !(spec_is_app_bundle(#[trigger] names@[j]@)
                        && !spec_is_helper_bundle(lowered@[j]@)))
                &&& (spec_is_helper_bundle(lowered@[ix as int]@) ==> forall|j: int|
                    0 <= j < names@.len() ==> !(spec_is_app_bundle(#[trigger] names@[j]@)
                        && !spec_is_helper_bundle(lowered@[j]@)))
            },
            None => forall|j: int| 0 <= j < names@.len() ==> !spec_is_app_bundle(
                #[trigger] names@[j]@,
            ),
        },
{
    let n = names.len();
    let mut main_app: Option<usize> = None;
    let mut fallback: Option<usize> = None;
    let mut i: usize = 0;
    while i < n
        invariant
            n == names@.len(),
            n == lowered@.len(),
            i <= n,
            match main_app {
                Some(m) => m < i && spec_is_app_bundle(names@[m as int]@)
                    && !spec_is_helper_bundle(lowered@[m as int]@) && forall|j: int|
                    0 <= j < m ==> !(spec_is_app_bundle(#[trigger] names@[j]@)
                        && !spec_is_helper_bundle(lowered@[j]@)),
                None => forall|j: int|
                    0 <= j < i ==> !(spec_is_app_bundle(#[trigger] names@[j]@)
                        && !spec_is_helper_bundle(lowered@[j]@)),
            },
            match fallback {
                Some(f) => f < i && spec_is_app_bundle(names@[f as int]@),
                None => true,
            },
            fallback is None ==> main_app is None,
            main_app is None && fallback is Some ==> forall|j: int|
                0 <= j < i ==> !(spec_is_app_bundle(#[trigger] names@[j]@)
                    && !spec_is_helper_bundle(lowered@[j]@)),
            fallback is None ==> forall|j: int|
                0 <= j < i ==> !spec_is_app_bundle(#[trigger] names@[j]@),
        decreases n - i,
    {
        if is_app_bundle(names[i].as_str()) {
            let is_helper = crate::text::contains_sub(lowered[i].as_str(), "helper")
                || crate::text::contains_sub(lowered[i].as_str(), "plugin")
                || crate::text::contains_sub(lowered[i].as_str(), "renderer")
                || crate::text::contains_sub(lowered[i].as_str(), "gpu");
            if !is_helper {
                if main_app.is_none() {
                    main_app = Some(i);
                }
            }
            if fallback.is_none() {
                fallback = Some(i);
            }
        }
        i = i + 1;
    }
    match main_app {
        Some(m) => Some(m),
        None => fallback,
    }
}

/// The artifact file name `<base>-<version>.<ext>` of a bundle, with the
/// `.app` suffix dropped from the bundle name.
pub open spec fn spec_artifact_name(app_name: Seq<char>, version: Seq<char>, ext: Seq<
    char,
>) -> Seq<char> {
    let base = if spec_is_app_bundle(app_name) {
        app_name.subrange(0, app_name.len() - 4)
    } else {
        app_name
    };
    base + "-"@ + version + "."@ + ext
}

/// Builds the `<base>-<version>.<ext>` artifact name for a bundle.
pub fn artifact_name(app_name: &str, version: &str, ext: &str) -> (r: String)
    ensures
        r@ == spec_artifact_name(app_name@, version@, ext@),
{
    let n = app_name.unicode_len();
    let mut s: String = if is_app_bundle(app_name) {
        app_name.substring_char(0, n - 4).to_owned()
    } else {
        app_name.to_owned()
    };
    s.append("-");
    s.append(version);
    s.append(".");
    s.append(ext);
    proof {
        assert(s@ =~= spec_artifact_name(app_name@, version@, ext@));
    }
    s
}

/// The component property list that pins a bundle to `/Applications` and
/// forbids relocation, with the bundle's path inserted.
pub open spec fn spec_component_plist(app_name: Seq<char>) -> Seq<char> {
    "<?xml version=\"1.0\" encoding=\"UTF-8\"?>\n<!DOCTYPE plist PUBLIC \"-//Apple//DTD PLIST 1.0//EN\" \"http://www.apple.com/DTDs/PropertyList-1.0.dtd\">\n<plist version=\"1.0\">\n<array>\n    <dict>\n        <key>BundleHasStrictIdentifier</key>\n        <true/>\n        <key>BundleIsRelocatable</key>\n        <false/>\n        <key>BundleIsVersionChecked</key>\n        <false/>\n        <key>BundleOverwriteAction</key>\n        <string>upgrade</string>\n        <key>RootRelativeBundlePath</key>\n        <string>"@
        + app_name
        + "</string>\n    </dict>\n</array>\n</plist>"@
}

/// Builds the component property list for a bundle.
pub fn component_plist(app_name: &str) -> (r: String)
    ensures
        r@ == spec_component_plist(app_name@),
{
    let mut s =
        "<?xml version=\"1.0\" encoding=\"UTF-8\"?>\n<!DOCTYPE plist PUBLIC \"-//Apple//DTD PLIST 1.0//EN\" \"http://www.apple.com/DTDs/PropertyList-1.0.dtd\">\n<plist version=\"1.0\">\n<array>\n    <dict>\n        <key>BundleHasStrictIdentifier</key>\n        <true/>\n        <key>BundleIsRelocatable</key>\n        <false/>\n        <key>BundleIsVersionChecked</key>\n        <false/>\n        <key>BundleOverwriteAction</key>\n        <string>upgrade</string>\n        <key>RootRelativeBundlePath</key>\n        <string>".to_owned();
    s.append(app_name);
    s.append("</string>\n    </dict>\n</array>\n</plist>");
    proof {
        assert(s@ =~= spec_component_plist(app_name@));
    }
    s
}

/// The mount point in one line of the disk image tool's output: the text
/// from the first `/Volumes/` on, when the line carries one.
pub fn parse_mount_point<'a>(line: &'a str) -> (r: Option<&'a str>)
    ensures
        match r {
            Some(sub) => exists|i: int|
                {
                    &&& #[trigger] spec_match_at(line@, i, "/Volumes/"@)
                    &&& forall|p: int| 0 <= p < i ==> !spec_match_at(line@, p, "/Volumes/"@)
                    &&& sub@ == line@.subrange(i, line@.len() as int)
                },
            None => !spec_contains(line@, "/Volumes/"@),
        },
{
    proof {
        reveal_strlit("/Volumes/");
    }
    match crate::text::find_sub(line, "/Volumes/") {
        Some(i) => {
            let n = line.unicode_len();
            Some(line.substring_char(i, n))
        },
        None => None,
    }
}

/// The dispatch of an installer build on macOS: the disk image path, the
/// plain package path, or a rejection of an unknown format.  Without a
/// stated format the disk image is built.
#[derive(Clone, Copy, Debug, PartialEq, Eq, Structural)]
pub enum InstallerKind {
    Dmg,
    Pkg,
    Unsupported,
}

/// Chooses the installer kind for a requested format.
pub fn plan_installer_format(format: Option<&str>) -> (r: InstallerKind)
    ensures
        match format {
            None => r == InstallerKind::Dmg,
            Some(f) => (f@ == "dmg"@ ==> r == InstallerKind::Dmg) && (f@ == "pkg"@ ==> r
                == InstallerKind::Pkg) && (f@ != "dmg"@ && f@ != "pkg"@ ==> r
                == InstallerKind::Unsupported),
        },
{
    proof {
        reveal_strlit("dmg");
        reveal_strlit("pkg");
        assert("dmg"@ =~= seq!['d', 'm', 'g']);
        assert("pkg"@ =~= seq!['p', 'k', 'g']);
    }
    match format {
        None => InstallerKind::Dmg,
        Some(f) => {
            if crate::text::str_eq_str(f, "dmg") {
                InstallerKind::Dmg
            } else if crate::text::str_eq_str(f, "pkg") {
                InstallerKind::Pkg
            } else {
                InstallerKind::Unsupported
            }
        },
    }
}

} // verus!
