//! Settings of the preview application, with their defaults.

use vstd::prelude::*;

verus! {

/// Where and how the preview window opens.
#[derive(Debug, Clone, Copy)]
pub struct WindowSettings {
    pub position: Option<(i32, i32)>,
    pub size: Option<(u32, u32)>,
    pub maximized: bool,
    pub fullscreen: bool,
    pub remember_state: bool,
}

impl Default for WindowSettings {
    fn default() -> (r: WindowSettings)
        ensures
            r.position is None,
            r.size == Some((1200u32, 800u32)),
            !r.maximized,
            !r.fullscreen,
            r.remember_state,
    {
        WindowSettings { position: None, size: Some((1200, 800)), maximized: false, fullscreen: false, remember_state: true }
    }
}

/// How a document is fitted into the window.
#[derive(Debug, Clone, Copy, PartialEq, Eq, Structural)]
pub enum ZoomMode {
    Fit,
    FitWidth,
    FitHeight,
    ActualSize,
    Custom,
}

/// How finely pages are rendered.
#[derive(Debug, Clone, Copy, PartialEq, Eq, Structural)]
pub enum RenderQuality {
    Low,
    Medium,
    High,
    Ultra,
}

/// Which parts of the interface are shown.
#[derive(Debug, Clone, Copy, PartialEq, Eq, Structural)]
pub struct UISettings {
    pub dark_mode: bool,
    pub show_toolbar: bool,
    pub show_menu_bar: bool,
    pub show_status_bar: bool,
    pub show_page_numbers: bool,
    pub show_bookmarks: bool,
    pub show_page_thumbnails: bool,
    pub compact_mode: bool,
}

impl Default for UISettings {
    fn default() -> (r: UISettings)
        ensures
            r == (UISettings {
                dark_mode: false,
                show_toolbar: true,
                show_menu_bar: true,
                show_status_bar: true,
                show_page_numbers: true,
                show_bookmarks: true,
                show_page_thumbnails: false,
                compact_mode: false,
            }),
    {
        UISettings {
            dark_mode: false,
            show_toolbar: true,
            show_menu_bar: true,
            show_status_bar: true,
            show_page_numbers: true,
            show_bookmarks: true,
            show_page_thumbnails: false,
            compact_mode: false,
        }
    }
}

/// Rendering and caching trade-offs. The thumbnail size is in pixels.
#[derive(Debug, Clone, Copy, PartialEq, Eq, Structural)]
pub struct PerformanceSettings {
    pub lazy_loading: bool,
    pub page_caching: bool,
    pub cache_thumbnails: bool,
    pub thumbnail_size: usize,
    pub hardware_acceleration: bool,
    pub render_quality: RenderQuality,
}

impl Default for PerformanceSettings {
    fn default() -> (r: PerformanceSettings)
        ensures
            r == (PerformanceSettings {
                lazy_loading: true,
                page_caching: true,
                cache_thumbnails: true,
                thumbnail_size: 120,
                hardware_acceleration: true,
                render_quality: RenderQuality::High,
            }),
    {
        PerformanceSettings {
            lazy_loading: true,
            page_caching: true,
            cache_thumbnails: true,
            thumbnail_size: 120,
            hardware_acceleration: true,
            render_quality: RenderQuality::High,
        }
    }
}

/// Which plugins run, and their settings by plugin name.
#[derive(Debug, Clone)]
pub struct PluginSettings {
    pub enabled_plugins: Vec<String>,
    pub plugin_config: Vec<(String, String)>,
}

impl Default for PluginSettings {
    fn default() -> (r: PluginSettings)
        ensures
            r.enabled_plugins@.len() == 0,
            r.plugin_config@.len() == 0,
    {
        PluginSettings { enabled_plugins: Vec::new(), plugin_config: Vec::new() }
    }
}

/// Keys bound to the viewer's actions; an empty text binds nothing.
#[derive(Debug, Clone)]
pub struct KeybindingConfig {
    pub next_page: String,
    pub prev_page: String,
    pub first_page: String,
    pub last_page: String,
    pub zoom_in: String,
    pub zoom_out: String,
    pub fit_page: String,
}

impl KeybindingConfig {
    /// Bindings for the seven actions, in the order of the fields.
    pub fn new(
        next_page: &str,
        prev_page: &str,
        first_page: &str,
        last_page: &str,
        zoom_in: &str,
        zoom_out: &str,
        fit_page: &str,
    ) -> (r: KeybindingConfig)
        ensures
            r.next_page@ == next_page@,
            r.prev_page@ == prev_page@,
            r.first_page@ == first_page@,
            r.last_page@ == last_page@,
            r.zoom_in@ == zoom_in@,
            r.zoom_out@ == zoom_out@,
            r.fit_page@ == fit_page@,
    {
        KeybindingConfig {
            next_page: String::from_str(next_page),
            prev_page: String::from_str(prev_page),
            first_page: String::from_str(first_page),
            last_page: String::from_str(last_page),
            zoom_in: String::from_str(zoom_in),
            zoom_out: String::from_str(zoom_out),
            fit_page: String::from_str(fit_page),
        }
    }
}

/// Key bindings by group.
#[derive(Debug, Clone)]
pub struct Keybindings {
    pub navigation: KeybindingConfig,
    pub zoom: KeybindingConfig,
    pub print: KeybindingConfig,
    pub view: KeybindingConfig,
}

impl Default for Keybindings {
    fn default() -> (r: Keybindings)
        ensures
            r.navigation.next_page@ == "Ctrl+Right"@,
            r.navigation.prev_page@ == "Ctrl+Left"@,
            r.navigation.first_page@ == "Ctrl+Home"@,
            r.navigation.last_page@ == "Ctrl+End"@,
            r.zoom.zoom_in@ == "Ctrl++"@,
            r.zoom.zoom_out@ == "Ctrl+-"@,
            r.zoom.fit_page@ == "Ctrl+0"@,
            r.print.fit_page@ == "Ctrl+P"@,
            r.view.zoom_in@ == "Ctrl+F"@,
            r.view.next_page@ == "F"@,
            r.view.first_page@ == "Home"@,
            r.view.last_page@ == "End"@,
            r.view.fit_page@ == "Escape"@,
    {
        Keybindings {
            navigation: KeybindingConfig::new("Ctrl+Right", "Ctrl+Left", "Ctrl+Home", "Ctrl+End", "", "", ""),
            zoom: KeybindingConfig::new("", "", "", "", "Ctrl++", "Ctrl+-", "Ctrl+0"),
            print: KeybindingConfig::new("", "", "", "", "", "", "Ctrl+P"),
            view: KeybindingConfig::new("F", "", "Home", "End", "Ctrl+F", "", "Escape"),
        }
    }
}

} // verus!
