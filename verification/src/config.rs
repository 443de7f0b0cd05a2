//! The launcher configuration file: where it lives, what a stored copy must
//! satisfy, and what loading one yields.
use vstd::prelude::*;

use crate::error_mapper::{error_is, plain_error, LauncherError};
use crate::models::LauncherConfig;
use crate::text::{copy_string, first_chars, join2, limit_text, same_text};

verus! {

/// The configuration file's name inside the launcher's data directory.
pub const CONFIG_FILE: &'static str = "launcher-config.json";

/// Longest path summary attached to configuration errors.
pub const SUMMARY_LIMIT: usize = 800;

/// The configuration store, known by the path of its file.
pub struct LauncherConfigService {
    path: String,
}

impl View for LauncherConfigService {
    type V = Seq<char>;

    closed spec fn view(&self) -> Seq<char> {
        self.path@
    }
}

/// What reading the configuration file gave.
#[derive(Clone, Debug)]
pub enum StoredConfig {
    /// There is no file.
    Missing,
    /// The file exists but could not be read; the reason.
    Unreadable(String),
    /// The file was read but is not a configuration; the reason.
    Malformed(String),
    /// The file held this configuration.
    Parsed(LauncherConfig),
}

/// The themes the launcher knows.
pub open spec fn known_theme(theme: Seq<char>) -> bool {
    theme == "system"@ || theme == "light"@ || theme == "dark"@
}

/// A configuration the launcher accepts.
pub open spec fn config_accepted(config: LauncherConfig) -> bool {
    config.port != 0 && known_theme(config.theme@)
}

/// Why a configuration is refused: the port first, then the theme.
pub fn validate(config: &LauncherConfig) -> (r: Result<(), LauncherError>)
    ensures
        r is Ok <==> config_accepted(*config),
        r matches Err(e) ==> (if config.port == 0 {
            plain_error(e, "invalidPort"@, "端口必须在 1 到 65535 之间。"@)
        } else {
            plain_error(e, "invalidTheme"@, "主题模式无效。"@)
        }),
{
    if config.port == 0 {
        return Err(LauncherError::new("invalidPort", "端口必须在 1 到 65535 之间。"));
    }
    let theme = config.theme.as_str();
    if !(same_text(theme, "system") || same_text(theme, "light") || same_text(theme, "dark")) {
        return Err(LauncherError::new("invalidTheme", "主题模式无效。"));
    }
    Ok(())
}

/// `r` is what loading gives for what reading the file gave (see `load`).
pub open spec fn load_result(stored: StoredConfig, r: Result<LauncherConfig, String>) -> bool {
        match stored {
            StoredConfig::Missing => r matches Ok(c) && c.port == 3080 && c.theme@ == "system"@
                && !c.lan_enabled && c.lan_host is None,
            StoredConfig::Unreadable(reason) => r matches Err(m) && m@ == "无法读取启动器配置："@ + reason@,
            StoredConfig::Malformed(reason) => r matches Err(m) && m@ == "启动器配置格式无效："@ + reason@,
            StoredConfig::Parsed(config) => if config_accepted(config) {
                r matches Ok(c) && c == config
            } else {
                r matches Err(m) && m@ == (if config.port == 0 {
                    "端口必须在 1 到 65535 之间。"@
                } else {
                    "主题模式无效。"@
                })
            },
        }
}

/// `r` is what saving `config` gives before anything is written (see `save`).
pub open spec fn save_result(config: LauncherConfig, r: Result<LauncherConfig, String>) -> bool {
    if config_accepted(config) {
        r == Ok::<LauncherConfig, String>(config)
    } else {
        r matches Err(m) && m@ == (if config.port == 0 {
            "端口必须在 1 到 65535 之间。"@
        } else {
            "主题模式无效。"@
        })
    }
}

/// A configuration that saving lets through loads back unchanged from the
/// file that holds it.
pub proof fn law_saved_config_loads_back(
    config: LauncherConfig,
    saved: Result<LauncherConfig, String>,
    loaded: Result<LauncherConfig, String>,
)
    requires
        save_result(config, saved),
        saved is Ok,
        load_result(StoredConfig::Parsed(saved->Ok_0), loaded),
    ensures
        loaded == Ok::<LauncherConfig, String>(config),
{
}

/// Saving refuses exactly what loading refuses: a configuration is written
/// only when it is one the launcher accepts.
pub proof fn law_save_refuses_what_load_refuses(
    config: LauncherConfig,
    saved: Result<LauncherConfig, String>,
    loaded: Result<LauncherConfig, String>,
)
    requires
        save_result(config, saved),
        load_result(StoredConfig::Parsed(config), loaded),
    ensures
        saved is Ok <==> config_accepted(config),
        saved is Ok <==> loaded is Ok,
        saved is Ok ==> saved == loaded,
        saved matches Err(a) ==> (loaded matches Err(b) && a@ == b@),
{
}

/// A configuration that loading yields is always one the launcher accepts.
pub proof fn law_loaded_config_is_accepted(stored: StoredConfig, r: Result<LauncherConfig, String>)
    requires
        load_result(stored, r),
    ensures
        r matches Ok(c) ==> config_accepted(c),
{
}

impl LauncherConfigService {
    /// The store whose file is at `config_path`.
    pub fn new(config_path: &str) -> (service: Self)
        ensures
            service@ == config_path@,
    {
        LauncherConfigService { path: copy_string(&config_path.to_owned()) }
    }

    /// The path of the configuration file.
    pub fn path(&self) -> (path: String)
        ensures
            path@ == self@,
    {
        copy_string(&self.path)
    }

    /// The configuration, given what reading the file gave: the default one
    /// when there is no file, the stored one when it is accepted, and
    /// otherwise a message that says why not.
    pub fn load(&self, stored: StoredConfig) -> (r: Result<LauncherConfig, String>)
        ensures
            load_result(stored, r),
    {
        match stored {
            StoredConfig::Missing => Ok(LauncherConfig::default()),
            StoredConfig::Unreadable(reason) => Err(join2("无法读取启动器配置：", reason.as_str())),
            StoredConfig::Malformed(reason) => Err(join2("启动器配置格式无效：", reason.as_str())),
            StoredConfig::Parsed(config) => match validate(&config) {
                Ok(()) => Ok(config),
                Err(e) => Err(e.message),
            },
        }
    }

    /// The configuration to write, when it is accepted; otherwise the
    /// message of the rule it breaks, and nothing is written.
    pub fn save(&self, config: LauncherConfig) -> (r: Result<LauncherConfig, String>)
        ensures
            save_result(config, r),
    {
        match validate(&config) {
            Ok(()) => Ok(config),
            Err(e) => Err(e.message),
        }
    }
}

/// Why writing an accepted configuration failed: it could not be encoded,
/// or the file could not be written; the reason.
#[derive(Clone, Debug)]
pub enum SaveFailure {
    Encode(String),
    Write(String),
}

/// The message for a configuration that could not be written.
pub fn save_failure_message(failure: SaveFailure) -> (m: String)
    ensures
        m@ == match failure {
            SaveFailure::Encode(reason) => "无法编码启动器配置："@ + reason@,
            SaveFailure::Write(reason) => "无法保存启动器配置："@ + reason@,
        },
{
    match failure {
        SaveFailure::Encode(reason) => join2("无法编码启动器配置：", reason.as_str()),
        SaveFailure::Write(reason) => join2("无法保存启动器配置：", reason.as_str()),
    }
}

/// "路径：" and the configuration path, cut to 800 characters.
pub fn config_path_summary(service: &LauncherConfigService) -> (summary: String)
    ensures
        summary@ == first_chars("路径："@ + service@, 800),
{
    let path = service.path();
    let text = join2("路径：", path.as_str());
    limit_text(text.as_str(), SUMMARY_LIMIT)
}

/// The error shown when the configuration cannot be loaded.
pub fn config_read_failed(message: &str, service: &LauncherConfigService) -> (e: LauncherError)
    ensures
        error_is(e, "configReadFailed"@, message@, Some(first_chars("路径："@ + service@, 800)), None, None),
{
    let summary = config_path_summary(service);
    proof {
        assert(first_chars(first_chars("路径："@ + service@, 800), 1200) =~= first_chars("路径："@ + service@, 800));
    }
    LauncherError::new("configReadFailed", message).with_detail(summary.as_str())
}

/// The error shown when the configuration cannot be saved.
pub fn config_write_failed(message: &str, service: &LauncherConfigService) -> (e: LauncherError)
    ensures
        error_is(e, "configWriteFailed"@, message@, Some(first_chars("路径："@ + service@, 800)), None, None),
{
    let summary = config_path_summary(service);
    proof {
        assert(first_chars(first_chars("路径："@ + service@, 800), 1200) =~= first_chars("路径："@ + service@, 800));
    }
    LauncherError::new("configWriteFailed", message).with_detail(summary.as_str())
}

} // verus!
