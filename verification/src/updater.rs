//! Which Linux installation format the running build uses, and the
//! update-target string derived from it.

use vstd::prelude::*;
use vstd::string::StringExecFns;
use crate::text::{ascii_lower, chars_of, spec_ascii_lower};
use crate::binding::{lemma_lower_seq_char, lower_seq};

verus! {

/// The Linux installation format.
#[derive(Debug, Clone, Copy, PartialEq, Eq, Structural)]
pub enum LinuxFormat {
    /// The self-contained image format, the default for generic Linux.
    AppImage,
    /// The Debian package format.
    Deb,
}

/// A path under the system package prefixes, the mark of a package
/// installation.
pub open spec fn spec_path_is_packaged(path: Seq<char>) -> bool {
    exists|k: int|
        0 <= k <= path.len() - 5 && ((#[trigger] path.subrange(k, k + 5)) == "/opt/"@
            || path.subrange(k, k + 5) == "/usr/"@)
}

impl LinuxFormat {
    /// Whether the executable path and the package manager's answer say
    /// the application was installed as a package: the path lies under
    /// a package prefix, or the package query succeeded.
    pub fn is_deb_installed(exe_path: &str, dpkg_query_succeeded: bool) -> (r: bool)
        ensures
            r == (spec_path_is_packaged(exe_path@) || dpkg_query_succeeded),
    {
        let chars = chars_of(exe_path);
        let len = chars.len();
        if len >= 5 {
            let mut k: usize = 0;
            while k <= len - 5
                invariant
                    chars@ == exe_path@,
                    5 <= len == exe_path@.len(),
                    k <= len - 5 + 1,
                    forall|j: int|
                        0 <= j < k ==> (#[trigger] exe_path@.subrange(j, j + 5)) != "/opt/"@
                            && exe_path@.subrange(j, j + 5) != "/usr/"@,
                decreases len - k,
            {
                let slash = chars[k] == '/';
                let tail = chars[k + 4] == '/';
                let opt = slash && chars[k + 1] == 'o' && chars[k + 2] == 'p' && chars[k + 3]
                    == 't' && tail;
                let usr = slash && chars[k + 1] == 'u' && chars[k + 2] == 's' && chars[k + 3]
                    == 'r' && tail;
                proof {
                    reveal_strlit("/opt/");
                    reveal_strlit("/usr/");
                    let sub = exe_path@.subrange(k as int, k + 5 as int);
                    assert(sub.len() == 5);
                    assert(forall|j: int| 0 <= j < 5 ==> sub[j] == exe_path@[k + j]);
                    if opt {
                        assert(sub =~= "/opt/"@);
                    } else {
                        assert(sub != "/opt/"@) by {
                            if sub == "/opt/"@ {
                                assert(sub[0] == '/' && sub[1] == 'o' && sub[2] == 'p'
                                    && sub[3] == 't' && sub[4] == '/');
                            }
                        }
                    }
                    if usr {
                        assert(sub =~= "/usr/"@);
                    } else {
                        assert(sub != "/usr/"@) by {
                            if sub == "/usr/"@ {
                                assert(sub[0] == '/' && sub[1] == 'u' && sub[2] == 's'
                                    && sub[3] == 'r' && sub[4] == '/');
                            }
                        }
                    }
                }
                if opt || usr {
                    return true;
                }
                k = k + 1;
            }
        }
        proof {
            if spec_path_is_packaged(exe_path@) {
                let k = choose|k: int|
                    0 <= k <= exe_path@.len() - 5 && ((#[trigger] exe_path@.subrange(k, k + 5))
                        == "/opt/"@ || exe_path@.subrange(k, k + 5) == "/usr/"@);
                assert(false);
            }
        }
        dpkg_query_succeeded
    }

    /// Determine the format from the override variable and the
    /// installation evidence: an explicit `deb` or `appimage` override
    /// wins (case does not matter), else a package installation means
    /// the package format, else the image format.
    pub fn detect(override_value: Option<&String>, deb_installed: bool) -> (r: LinuxFormat)
        ensures
            ({
                let chosen = match override_value {
                    Some(v) => if lower_seq(v@) == "deb"@ {
                        Some(LinuxFormat::Deb)
                    } else if lower_seq(v@) == "appimage"@ {
                        Some(LinuxFormat::AppImage)
                    } else {
                        None
                    },
                    None => None,
                };
                match chosen {
                    Some(f) => r == f,
                    None => r == if deb_installed {
                        LinuxFormat::Deb
                    } else {
                        LinuxFormat::AppImage
                    },
                }
            }),
    {
        if let Some(v) = override_value {
            let chars = chars_of(v.as_str());
            let mut lowered: Vec<char> = Vec::new();
            let mut i: usize = 0;
            while i < chars.len()
                invariant
                    i <= chars@.len(),
                    chars@ == v@,
                    lowered@.len() == i,
                    forall|j: int| 0 <= j < i ==> lowered@[j] == spec_ascii_lower(v@[j]),
                decreases chars@.len() - i,
            {
                lowered.push(ascii_lower(chars[i]));
                i = i + 1;
            }
            proof {
                lemma_lower_seq_char(v@);
                assert(lowered@ =~= lower_seq(v@));
            }
            if crate::text::chars_eq_str(&lowered, "deb") {
                return LinuxFormat::Deb;
            }
            if crate::text::chars_eq_str(&lowered, "appimage") {
                return LinuxFormat::AppImage;
            }
        }
        if deb_installed {
            LinuxFormat::Deb
        } else {
            LinuxFormat::AppImage
        }
    }

    /// The custom target string the updater asks the release server
    /// for.
    pub fn to_target_string(&self) -> (r: String)
        ensures
            self is AppImage ==> r@ == "linux-x86_64"@,
            self is Deb ==> r@ == "linux-deb-x86_64"@,
    {
        match self {
            LinuxFormat::AppImage => String::from_str("linux-x86_64"),
            LinuxFormat::Deb => String::from_str("linux-deb-x86_64"),
        }
    }
}

} // verus!
