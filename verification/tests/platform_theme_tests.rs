use rustagent::platform::{
    config_dir_for, open_command, python_command, terminal_env, terminal_shell, terminal_shell_args, HostOs,
};
use rustagent::theme::{fallback_colors, palette_or_fallback, RawColor, RawColors, ThemeColor};

#[test]
fn shells_per_platform() {
    assert_eq!(terminal_shell(HostOs::Windows), "powershell.exe");
    assert_eq!(terminal_shell(HostOs::Linux), "bash");
    assert_eq!(terminal_shell(HostOs::MacOs), "bash");
}

#[test]
fn shell_args_per_platform() {
    assert_eq!(
        terminal_shell_args(HostOs::Linux, "/tmp/rustagent/osc7.bash"),
        vec!["--init-file".to_string(), "/tmp/rustagent/osc7.bash".to_string()]
    );
    let win = terminal_shell_args(HostOs::Windows, "ignored");
    assert_eq!(win.len(), 3);
    assert_eq!(win[0], "-NoExit");
    assert_eq!(win[1], "-Command");
    assert!(win[2].starts_with("function prompt {"));
    assert!(win[2].contains("]7;file://"));
}

#[test]
fn env_only_off_windows() {
    assert!(terminal_env(HostOs::Windows).is_empty());
    assert_eq!(
        terminal_env(HostOs::Linux),
        vec![
            ("TERM", "xterm-256color"),
            ("COLORTERM", "truecolor"),
            ("LANG", "en_GB.UTF-8")
        ]
    );
}

#[test]
fn python_and_open_commands() {
    assert_eq!(python_command(HostOs::Windows), "python");
    assert_eq!(python_command(HostOs::Linux), "python3");
    assert_eq!(open_command(HostOs::Windows, "a b.html"), "start \"\" \"a b.html\"\n");
    assert_eq!(open_command(HostOs::MacOs, "x.html"), "open \"x.html\"\n");
    assert_eq!(open_command(HostOs::Linux, "x.html"), "xdg-open \"x.html\"\n");
}

#[test]
fn raw_colors_default_to_opaque() {
    let c = RawColor { r: 1, g: 2, b: 3, a: None };
    assert_eq!(c.to_color(), ThemeColor { a: 255, r: 1, g: 2, b: 3 });
    let c = RawColor { r: 1, g: 2, b: 3, a: Some(7) };
    assert_eq!(c.to_color(), ThemeColor { a: 7, r: 1, g: 2, b: 3 });
}

#[test]
fn fallback_palette_values() {
    let p = fallback_colors();
    assert_eq!(p.primary, ThemeColor { a: 255, r: 103, g: 80, b: 164 });
    assert_eq!(p.background, ThemeColor { a: 255, r: 30, g: 30, b: 30 });
    assert_eq!(p.overlay, ThemeColor { a: 180, r: 0, g: 0, b: 0 });
    assert_eq!(p.shadow, ThemeColor { a: 120, r: 0, g: 0, b: 0 });
    assert_eq!(palette_or_fallback(None), p);
}

#[test]
fn stylesheet_colors_become_the_palette() {
    let c = |r: u8| RawColor { r, g: 0, b: 0, a: None };
    let raw = RawColors {
        primary: c(1),
        secondary: c(2),
        tertiary: c(3),
        success: c(4),
        warning: c(5),
        error: c(6),
        info: c(7),
        background: c(8),
        surface_primary: c(9),
        surface_secondary: c(10),
        surface_tertiary: c(11),
        surface_inverse: c(12),
        surface_inverse_secondary: c(13),
        surface_inverse_tertiary: c(14),
        border: c(15),
        border_focus: c(16),
        border_disabled: c(17),
        text_primary: c(18),
        text_secondary: c(19),
        text_placeholder: c(20),
        text_inverse: c(21),
        text_highlight: c(22),
        focus: c(23),
        active: c(24),
        disabled: c(25),
        overlay: RawColor { r: 0, g: 0, b: 0, a: Some(99) },
        shadow: c(27),
    };
    let p = palette_or_fallback(Some(raw));
    assert_eq!(p.primary, ThemeColor { a: 255, r: 1, g: 0, b: 0 });
    assert_eq!(p.text_highlight, ThemeColor { a: 255, r: 22, g: 0, b: 0 });
    assert_eq!(p.overlay, ThemeColor { a: 99, r: 0, g: 0, b: 0 });
    assert_eq!(p.shadow, ThemeColor { a: 255, r: 27, g: 0, b: 0 });
    assert_ne!(p, fallback_colors());
}

#[test]
fn config_dir_per_platform() {
    assert_eq!(
        config_dir_for(HostOs::Windows, Some("C:\\Users\\me\\AppData\\Roaming"), None, None),
        "C:\\Users\\me\\AppData\\Roaming\\rustagent"
    );
    assert_eq!(
        config_dir_for(HostOs::MacOs, None, Some("/Users/me"), None),
        "/Users/me/Library/Application Support/rustagent"
    );
    assert_eq!(
        config_dir_for(HostOs::Linux, None, Some("/home/me"), Some("/home/me/.cfg")),
        "/home/me/.cfg/rustagent"
    );
    assert_eq!(
        config_dir_for(HostOs::Linux, None, Some("/home/me/"), None),
        "/home/me/.config/rustagent"
    );
}

#[test]
fn config_dir_falls_back_to_relative_dir() {
    assert_eq!(config_dir_for(HostOs::Linux, None, None, None), ".rustagent");
    assert_eq!(config_dir_for(HostOs::Windows, None, Some("C:\\Users\\me"), None), ".rustagent");
    assert_eq!(config_dir_for(HostOs::MacOs, Some("C:\\x"), None, Some("/x")), ".rustagent");
}
