//! Directory and file layout: the fixed system paths, the development-mode
//! sandbox, and the run-mode selection of the command-line tool.
//!
//! Nothing here touches the filesystem; the caller creates directories and
//! reads files at the paths these functions compute.

use vstd::prelude::*;

verus! {

pub fn system_user_data_dir() -> (r: String)
    ensures
        r@ == "/var/lib/suplinux/users"@,
{
    let mut r = String::new();
    r.append("/var/lib/suplinux/users");
    proof {
        assert(r@ =~= "/var/lib/suplinux/users"@);
    }
    r
}

pub fn system_enrollment_dir() -> (r: String)
    ensures
        r@ == "/var/lib/suplinux/enrollment"@,
{
    let mut r = String::new();
    r.append("/var/lib/suplinux/enrollment");
    proof {
        assert(r@ =~= "/var/lib/suplinux/enrollment"@);
    }
    r
}

pub fn system_config_file() -> (r: String)
    ensures
        r@ == "/etc/suplinux/face-auth.toml"@,
{
    let mut r = String::new();
    r.append("/etc/suplinux/face-auth.toml");
    proof {
        assert(r@ =~= "/etc/suplinux/face-auth.toml"@);
    }
    r
}

pub fn system_models_dir() -> (r: String)
    ensures
        r@ == "/usr/share/suplinux/models"@,
{
    let mut r = String::new();
    r.append("/usr/share/suplinux/models");
    proof {
        assert(r@ =~= "/usr/share/suplinux/models"@);
    }
    r
}

/// Development mode keeps all state under one local directory instead of
/// the system paths. The caller creates the directories.
pub struct DevMode {
    pub enabled: bool,
    pub base_dir: String,
}

impl DevMode {
    /// When enabled, everything lives under `./dev_data`.
    pub fn new(enabled: bool) -> (d: DevMode)
        ensures
            d.enabled == enabled,
            enabled ==> d.base_dir@ == "./dev_data"@,
            !enabled ==> d.base_dir@ == Seq::<char>::empty(),
    {
        let mut base_dir = String::new();
        if enabled {
            base_dir.append("./dev_data");
            proof {
                assert(base_dir@ =~= "./dev_data"@);
            }
        }
        DevMode { enabled, base_dir }
    }

    pub fn is_enabled(&self) -> (r: bool)
        ensures
            r == self.enabled,
    {
        self.enabled
    }

    fn subdir(&self, name: &str) -> (r: String)
        ensures
            r@ == self.base_dir@ + "/"@ + name@,
    {
        let mut r = self.base_dir.clone();
        r.append("/");
        r.append(name);
        proof {
            assert(r@ =~= self.base_dir@ + "/"@ + name@);
        }
        r
    }

    pub fn data_dir(&self) -> (r: String)
        requires
            self.enabled,
        ensures
            r@ == self.base_dir@ + "/users"@,
    {
        proof {
            assert("/"@ + "users"@ =~= "/users"@) by {
                reveal_strlit("/");
                reveal_strlit("users");
                reveal_strlit("/users");
            }
        }
        let r = self.subdir("users");
        proof {
            assert(self.base_dir@ + "/"@ + "users"@ =~= self.base_dir@ + "/users"@);
        }
        r
    }

    pub fn enrollment_images_dir(&self) -> (r: String)
        requires
            self.enabled,
        ensures
            r@ == self.base_dir@ + "/enrollment"@,
    {
        let r = self.subdir("enrollment");
        proof {
            reveal_strlit("/");
            reveal_strlit("enrollment");
            reveal_strlit("/enrollment");
            assert(r@ =~= self.base_dir@ + "/enrollment"@);
        }
        r
    }

    pub fn captures_dir(&self) -> (r: String)
        requires
            self.enabled,
        ensures
            r@ == self.base_dir@ + "/captures"@,
    {
        let r = self.subdir("captures");
        proof {
            reveal_strlit("/");
            reveal_strlit("captures");
            reveal_strlit("/captures");
            assert(r@ =~= self.base_dir@ + "/captures"@);
        }
        r
    }

    pub fn logs_dir(&self) -> (r: String)
        requires
            self.enabled,
        ensures
            r@ == self.base_dir@ + "/logs"@,
    {
        let r = self.subdir("logs");
        proof {
            reveal_strlit("/");
            reveal_strlit("logs");
            reveal_strlit("/logs");
            assert(r@ =~= self.base_dir@ + "/logs"@);
        }
        r
    }

    pub fn config_dir(&self) -> (r: String)
        requires
            self.enabled,
        ensures
            r@ == self.base_dir@ + "/config"@,
    {
        let r = self.subdir("config");
        proof {
            reveal_strlit("/");
            reveal_strlit("config");
            reveal_strlit("/config");
            assert(r@ =~= self.base_dir@ + "/config"@);
        }
        r
    }

    pub fn debug_dir(&self) -> (r: String)
        requires
            self.enabled,
        ensures
            r@ == self.base_dir@ + "/debug"@,
    {
        let r = self.subdir("debug");
        proof {
            reveal_strlit("/");
            reveal_strlit("debug");
            reveal_strlit("/debug");
            assert(r@ =~= self.base_dir@ + "/debug"@);
        }
        r
    }

    /// Where a test capture lands. The caller supplies the timestamp text
    /// that names the file in development mode.
    pub fn get_capture_path(&self, prefix: &str, stamp: &str) -> (r: String)
        ensures
            self.enabled ==> r@ == self.base_dir@ + "/captures"@ + "/"@ + prefix@ + "_"@ + stamp@
                + ".jpg"@,
            !self.enabled ==> r@ == prefix@ + ".jpg"@,
    {
        if self.enabled {
            let mut r = self.captures_dir();
            r.append("/");
            r.append(prefix);
            r.append("_");
            r.append(stamp);
            r.append(".jpg");
            proof {
                assert(r@ =~= self.base_dir@ + "/captures"@ + "/"@ + prefix@ + "_"@ + stamp@
                    + ".jpg"@);
            }
            r
        } else {
            let mut r = String::new();
            r.append(prefix);
            r.append(".jpg");
            proof {
                assert(r@ =~= prefix@ + ".jpg"@);
            }
            r
        }
    }

    /// Where an annotated debug image lands.
    pub fn get_debug_path(&self, prefix: &str, stamp: &str) -> (r: String)
        ensures
            self.enabled ==> r@ == self.base_dir@ + "/debug"@ + "/"@ + prefix@ + "_"@ + stamp@
                + ".jpg"@,
            !self.enabled ==> r@ == prefix@ + "_debug.jpg"@,
    {
        if self.enabled {
            let mut r = self.debug_dir();
            r.append("/");
            r.append(prefix);
            r.append("_");
            r.append(stamp);
            r.append(".jpg");
            proof {
                assert(r@ =~= self.base_dir@ + "/debug"@ + "/"@ + prefix@ + "_"@ + stamp@
                    + ".jpg"@);
            }
            r
        } else {
            let mut r = String::new();
            r.append(prefix);
            r.append("_debug.jpg");
            proof {
                assert(r@ =~= prefix@ + "_debug.jpg"@);
            }
            r
        }
    }
}

/// How the command-line tool resolves its paths.
pub enum RunMode {
    /// All state under a local directory.
    Development(String),
    /// The system-wide paths.
    System,
    /// Per-user paths under the given home directory.
    User(String),
}

pub struct Paths {
    pub mode: RunMode,
}

impl Paths {
    /// Resolves the flag pair and the environment to a run mode: both flags
    /// clash; development keeps state locally; without a flag, root gets
    /// the development sandbox and anyone else their home directory.
    pub fn choose_run_mode(dev: bool, system: bool, user_is_root: bool, home: Option<String>) -> (r:
        Result<RunMode, String>)
        ensures
            dev && system ==> r is Err,
            dev && !system ==> (r matches Ok(m) && m matches RunMode::Development(b) && b@
                == "./dev_data"@),
            !dev && system ==> r == Ok::<RunMode, String>(RunMode::System),
            !dev && !system && user_is_root ==> (r matches Ok(m) && m matches RunMode::Development(
                b,
            ) && b@ == "./dev_data"@),
            !dev && !system && !user_is_root ==> match home {
                Some(h) => (r matches Ok(m) && m matches RunMode::User(g) && g@ == h@),
                None => r is Err,
            },
    {
        if dev && system {
            let mut m = String::new();
            m.append("Cannot use both --dev and --system flags");
            return Err(m);
        }
        if dev || (!system && user_is_root) {
            let mut b = String::new();
            b.append("./dev_data");
            proof {
                assert(b@ =~= "./dev_data"@);
            }
            return Ok(RunMode::Development(b));
        }
        if system {
            return Ok(RunMode::System);
        }
        match home {
            Some(h) => Ok(RunMode::User(h)),
            None => {
                let mut m = String::new();
                m.append("Could not find home directory");
                Err(m)
            },
        }
    }

    pub fn from_mode(mode: RunMode) -> (p: Paths)
        ensures
            p.mode == mode,
    {
        Paths { mode }
    }

    /// The configuration file. In user mode the home configuration wins
    /// when the caller found one there.
    pub fn config_file(&self, user_config_exists: bool) -> (r: String)
        ensures
            match self.mode {
                RunMode::Development(b) => r@ == b@ + "/configs/face-auth.toml"@,
                RunMode::System => r@ == "/etc/linuxsup/face-auth.toml"@,
                RunMode::User(h) => if user_config_exists {
                    r@ == h@ + "/.config/linuxsup/face-auth.toml"@
                } else {
                    r@ == "/etc/linuxsup/face-auth.toml"@
                },
            },
    {
        match &self.mode {
            RunMode::Development(b) => {
                let mut r = b.clone();
                r.append("/configs/face-auth.toml");
                proof {
                    assert(r@ =~= b@ + "/configs/face-auth.toml"@);
                }
                r
            },
            RunMode::System => {
                let mut r = String::new();
                r.append("/etc/linuxsup/face-auth.toml");
                proof {
                    assert(r@ =~= "/etc/linuxsup/face-auth.toml"@);
                }
                r
            },
            RunMode::User(h) => {
                if user_config_exists {
                    let mut r = h.clone();
                    r.append("/.config/linuxsup/face-auth.toml");
                    proof {
                        assert(r@ =~= h@ + "/.config/linuxsup/face-auth.toml"@);
                    }
                    r
                } else {
                    let mut r = String::new();
                    r.append("/etc/linuxsup/face-auth.toml");
                    proof {
                        assert(r@ =~= "/etc/linuxsup/face-auth.toml"@);
                    }
                    r
                }
            },
        }
    }

    pub fn user_data_dir(&self) -> (r: String)
        ensures
            match self.mode {
                RunMode::Development(b) => r@ == b@ + "/users"@,
                RunMode::System => r@ == "/var/lib/linuxsup/users"@,
                RunMode::User(h) => r@ == h@ + "/.local/share/linuxsup/users"@,
            },
    {
        match &self.mode {
            RunMode::Development(b) => {
                let mut r = b.clone();
                r.append("/users");
                proof {
                    assert(r@ =~= b@ + "/users"@);
                }
                r
            },
            RunMode::System => {
                let mut r = String::new();
                r.append("/var/lib/linuxsup/users");
                proof {
                    assert(r@ =~= "/var/lib/linuxsup/users"@);
                }
                r
            },
            RunMode::User(h) => {
                let mut r = h.clone();
                r.append("/.local/share/linuxsup/users");
                proof {
                    assert(r@ =~= h@ + "/.local/share/linuxsup/users"@);
                }
                r
            },
        }
    }

    pub fn enrollment_dir(&self) -> (r: String)
        ensures
            match self.mode {
                RunMode::Development(b) => r@ == b@ + "/enrollment"@,
                RunMode::System => r@ == "/var/lib/linuxsup/enrollment"@,
                RunMode::User(h) => r@ == h@ + "/.local/share/linuxsup/enrollment"@,
            },
    {
        match &self.mode {
            RunMode::Development(b) => {
                let mut r = b.clone();
                r.append("/enrollment");
                proof {
                    assert(r@ =~= b@ + "/enrollment"@);
                }
                r
            },
            RunMode::System => {
                let mut r = String::new();
                r.append("/var/lib/linuxsup/enrollment");
                proof {
                    assert(r@ =~= "/var/lib/linuxsup/enrollment"@);
                }
                r
            },
            RunMode::User(h) => {
                let mut r = h.clone();
                r.append("/.local/share/linuxsup/enrollment");
                proof {
                    assert(r@ =~= h@ + "/.local/share/linuxsup/enrollment"@);
                }
                r
            },
        }
    }

    pub fn models_dir(&self) -> (r: String)
        ensures
            match self.mode {
                RunMode::Development(_) => r@ == "./models"@,
                RunMode::System => r@ == "/usr/share/linuxsup/models"@,
                RunMode::User(_) => r@ == "/usr/share/linuxsup/models"@,
            },
    {
        match &self.mode {
            RunMode::Development(_) => {
                let mut r = String::new();
                r.append("./models");
                proof {
                    assert(r@ =~= "./models"@);
                }
                r
            },
            _ => {
                let mut r = String::new();
                r.append("/usr/share/linuxsup/models");
                proof {
                    assert(r@ =~= "/usr/share/linuxsup/models"@);
                }
                r
            },
        }
    }

    /// Where a test capture lands; the caller supplies the timestamp text.
    pub fn get_capture_path(&self, prefix: &str, stamp: &str) -> (r: String)
        ensures
            match self.mode {
                RunMode::Development(b) => r@ == b@ + "/captures/"@ + prefix@ + "_"@ + stamp@
                    + ".jpg"@,
                RunMode::System => r@ == "/tmp/linuxsup_"@ + prefix@ + "_"@ + stamp@ + ".jpg"@,
                RunMode::User(_) => r@ == "/tmp/linuxsup_"@ + prefix@ + "_"@ + stamp@ + ".jpg"@,
            },
    {
        match &self.mode {
            RunMode::Development(b) => {
                let mut r = b.clone();
                r.append("/captures/");
                r.append(prefix);
                r.append("_");
                r.append(stamp);
                r.append(".jpg");
                proof {
                    assert(r@ =~= b@ + "/captures/"@ + prefix@ + "_"@ + stamp@ + ".jpg"@);
                }
                r
            },
            _ => {
                let mut r = String::new();
                r.append("/tmp/linuxsup_");
                r.append(prefix);
                r.append("_");
                r.append(stamp);
                r.append(".jpg");
                proof {
                    assert(r@ =~= "/tmp/linuxsup_"@ + prefix@ + "_"@ + stamp@ + ".jpg"@);
                }
                r
            },
        }
    }

    /// Where an annotated debug image lands.
    pub fn get_debug_path(&self, prefix: &str, stamp: &str) -> (r: String)
        ensures
            match self.mode {
                RunMode::Development(b) => r@ == b@ + "/debug/"@ + prefix@ + "_"@ + stamp@
                    + ".jpg"@,
                RunMode::System => r@ == "/tmp/linuxsup_debug_"@ + prefix@ + "_"@ + stamp@
                    + ".jpg"@,
                RunMode::User(_) => r@ == "/tmp/linuxsup_debug_"@ + prefix@ + "_"@ + stamp@
                    + ".jpg"@,
            },
    {
        match &self.mode {
            RunMode::Development(b) => {
                let mut r = b.clone();
                r.append("/debug/");
                r.append(prefix);
                r.append("_");
                r.append(stamp);
                r.append(".jpg");
                proof {
                    assert(r@ =~= b@ + "/debug/"@ + prefix@ + "_"@ + stamp@ + ".jpg"@);
                }
                r
            },
            _ => {
                let mut r = String::new();
                r.append("/tmp/linuxsup_debug_");
                r.append(prefix);
                r.append("_");
                r.append(stamp);
                r.append(".jpg");
                proof {
                    assert(r@ =~= "/tmp/linuxsup_debug_"@ + prefix@ + "_"@ + stamp@ + ".jpg"@);
                }
                r
            },
        }
    }

    pub fn is_development(&self) -> (r: bool)
        ensures
            r == (self.mode matches RunMode::Development(_)),
    {
        match &self.mode {
            RunMode::Development(_) => true,
            _ => false,
        }
    }

    pub fn is_system(&self) -> (r: bool)
        ensures
            r == (self.mode matches RunMode::System),
    {
        match &self.mode {
            RunMode::System => true,
            _ => false,
        }
    }
}

} // verus!
