//! The persisted document: settings plus user content.
use vstd::prelude::*;

verus! {

/// Defines the operational environment of the client.
#[derive(Clone, Copy, Debug, PartialEq, Eq, Structural)]
pub enum OperationMode {
    /// Data is stored exclusively on the local machine or browser.
    Local,
    /// Data is synchronized via a remote REST API.
    Public,
}

/// User-configurable application settings.
#[derive(Clone, Debug)]
pub struct AppSettings {
    /// The language of the user interface.
    pub ui_language: String,
    /// The current operation mode.
    pub mode: OperationMode,
    /// The remote server URL (relevant only in public mode).
    pub server_url: String,
}

/// The root document persisted by the storage gateway.
#[derive(Clone, Debug)]
pub struct AppData {
    /// Text fragments saved by the user, in insertion order.
    pub clippings: Vec<String>,
    /// The last state of the editor workspace.
    pub last_session_content: String,
    /// Persistent application settings.
    pub settings: AppSettings,
}

/// Mathematical value of `AppSettings`.
pub struct SettingsModel {
    pub ui_language: Seq<char>,
    pub mode: OperationMode,
    pub server_url: Seq<char>,
}

/// Mathematical value of `AppData`.
pub struct DataModel {
    pub clippings: Seq<Seq<char>>,
    pub last_session_content: Seq<char>,
    pub settings: SettingsModel,
}

impl View for AppSettings {
    type V = SettingsModel;

    open spec fn view(&self) -> SettingsModel {
        SettingsModel {
            ui_language: self.ui_language@,
            mode: self.mode,
            server_url: self.server_url@,
        }
    }
}

impl View for AppData {
    type V = DataModel;

    open spec fn view(&self) -> DataModel {
        DataModel {
            clippings: self.clippings@.map_values(|c: String| c@),
            last_session_content: self.last_session_content@,
            settings: self.settings@,
        }
    }
}

/// Language shown on first start.
pub open spec fn default_language() -> Seq<char> {
    "English"@
}

/// Server endpoint used until the user configures another.
pub open spec fn default_server_url() -> Seq<char> {
    "https://api.decistudio.com"@
}

/// The settings of a fresh installation.
pub open spec fn default_settings() -> SettingsModel {
    SettingsModel {
        ui_language: default_language(),
        mode: OperationMode::Local,
        server_url: default_server_url(),
    }
}

/// The document of a fresh installation.
pub open spec fn default_data() -> DataModel {
    DataModel {
        clippings: Seq::empty(),
        last_session_content: Seq::empty(),
        settings: default_settings(),
    }
}

impl Default for AppSettings {
    fn default() -> (r: Self)
        ensures
            r@ == default_settings(),
    {
        AppSettings {
            ui_language: String::from_str("English"),
            mode: OperationMode::Local,
            server_url: String::from_str("https://api.decistudio.com"),
        }
    }
}

impl Default for AppData {
    fn default() -> (r: Self)
        ensures
            r@ == default_data(),
    {
        let r = AppData {
            clippings: Vec::new(),
            last_session_content: String::new(),
            settings: AppSettings::default(),
        };
        assert(r@.clippings =~= Seq::<Seq<char>>::empty());
        r
    }
}

} // verus!
