use vstd::prelude::*;

verus! {

/// Which run and theme were in use last, as paths below the configuration root.
#[derive(Debug, Clone)]
pub struct AppConfig {
    pub last_split_path: String,
    pub theme: String,
}

impl Default for AppConfig {
    fn default() -> (r: AppConfig)
        ensures
            r.last_split_path@ == "splits/sample"@,
            r.theme@ == "themes/default.json"@,
    {
        AppConfig {
            last_split_path: String::from_str("splits/sample"),
            theme: String::from_str("themes/default.json"),
        }
    }
}

/// The name of a key bound to an action; empty when unbound.
#[derive(Debug, Clone)]
pub struct KeyWrapper(pub String);

impl Default for KeyWrapper {
    fn default() -> (r: KeyWrapper)
        ensures
            r.0@ == Seq::<char>::empty(),
    {
        KeyWrapper(String::new())
    }
}

/// The keys bound to the controller's actions.
#[derive(Debug, Clone)]
pub struct Hotkeys {
    pub split: KeyWrapper,
    pub start: KeyWrapper,
    pub pause: KeyWrapper,
    pub reset: KeyWrapper,
    pub save_pb: KeyWrapper,
    pub undo_split: KeyWrapper,
    pub undo_pb: KeyWrapper,
    pub next_page: KeyWrapper,
    pub prev_page: KeyWrapper,
    pub toggle_help: KeyWrapper,
    pub reload_all: KeyWrapper,
    pub reload_run: KeyWrapper,
    pub reload_theme: KeyWrapper,
}

impl Default for Hotkeys {
    fn default() -> (r: Hotkeys)
        ensures
            r.split.0@.len() == 0,
            r.start.0@.len() == 0,
            r.pause.0@.len() == 0,
            r.reset.0@.len() == 0,
            r.save_pb.0@.len() == 0,
            r.undo_split.0@.len() == 0,
            r.undo_pb.0@.len() == 0,
            r.next_page.0@.len() == 0,
            r.prev_page.0@.len() == 0,
            r.toggle_help.0@.len() == 0,
            r.reload_all.0@.len() == 0,
            r.reload_run.0@.len() == 0,
            r.reload_theme.0@.len() == 0,
    {
        Hotkeys {
            split: KeyWrapper::default(),
            start: KeyWrapper::default(),
            pause: KeyWrapper::default(),
            reset: KeyWrapper::default(),
            save_pb: KeyWrapper::default(),
            undo_split: KeyWrapper::default(),
            undo_pb: KeyWrapper::default(),
            next_page: KeyWrapper::default(),
            prev_page: KeyWrapper::default(),
            toggle_help: KeyWrapper::default(),
            reload_all: KeyWrapper::default(),
            reload_run: KeyWrapper::default(),
            reload_theme: KeyWrapper::default(),
        }
    }
}

/// The theme's colours, as `#RRGGBB` texts, and its background sources.
#[derive(Debug, Clone)]
pub struct Colors {
    pub background: String,
    pub title: String,
    pub category: String,
    pub timer: String,
    pub split: String,
    pub split_selected: String,
    pub split_timer: String,
    pub gold_positive: String,
    pub gold_negative: String,
    pub pb_positive: String,
    pub pb_negative: String,
    pub info: String,
    pub shader_path: String,
    pub background_image: Option<String>,
}

impl Default for Colors {
    fn default() -> (r: Colors)
        ensures
            r.background@ == "#000000"@,
            r.title@ == "#FFFFFF"@,
            r.category@ == "#CCCCCC"@,
            r.timer@ == "#FF0000"@,
            r.split@ == "#00FF00"@,
            r.split_timer@ == "#0000FF"@,
            r.split_selected@ == "#FFFF00"@,
            r.gold_positive@ == "#FFD700"@,
            r.gold_negative@ == "#FF4500"@,
            r.pb_positive@ == "#32CD32"@,
            r.pb_negative@ == "#FF6347"@,
            r.info@ == "#808080"@,
            r.shader_path@ == ""@,
            r.background_image is None,
    {
        Colors {
            background: String::from_str("#000000"),
            title: String::from_str("#FFFFFF"),
            category: String::from_str("#CCCCCC"),
            timer: String::from_str("#FF0000"),
            split: String::from_str("#00FF00"),
            split_timer: String::from_str("#0000FF"),
            split_selected: String::from_str("#FFFF00"),
            gold_positive: String::from_str("#FFD700"),
            gold_negative: String::from_str("#FF4500"),
            pb_positive: String::from_str("#32CD32"),
            pb_negative: String::from_str("#FF6347"),
            info: String::from_str("#808080"),
            shader_path: String::from_str(""),
            background_image: None,
        }
    }
}

/// Which parts of the window are shown, and the window's size.
#[derive(Debug, Clone, Copy, PartialEq, Eq)]
pub struct Options {
    pub show_title: bool,
    pub show_category: bool,
    pub show_splits: bool,
    pub show_info: bool,
    pub show_body: bool,
    pub show_footer: bool,
    pub show_relative_times: bool,
    pub show_last_relative_time: bool,
    pub titlebar: bool,
    pub enable_shader: bool,
    pub enable_background_image: bool,
    pub window_size: (u32, u32),
}

impl Default for Options {
    fn default() -> (r: Options)
        ensures
            r == (Options {
                show_title: true,
                show_category: true,
                show_splits: true,
                show_info: true,
                show_body: true,
                show_footer: true,
                show_relative_times: false,
                show_last_relative_time: false,
                titlebar: true,
                enable_shader: false,
                enable_background_image: false,
                window_size: (720, 1280),
            }),
    {
        Options {
            show_title: true,
            show_category: true,
            show_splits: true,
            show_info: true,
            show_body: true,
            show_footer: true,
            show_relative_times: false,
            show_last_relative_time: false,
            titlebar: true,
            enable_shader: false,
            enable_background_image: false,
            window_size: (720, 1280),
        }
    }
}

} // verus!
