use terminrt::quickcmd::KeyBinding;
use terminrt::quickcmd::QuickCommand;
use terminrt::quickcmd::QuickCommandConfig;

fn binding(ctrl: bool, alt: bool, shift: bool, key: &str) -> KeyBinding {
    KeyBinding { ctrl, alt, shift, key: key.to_string() }
}

fn command(id: &str, tag: &str, kb: KeyBinding) -> QuickCommand {
    QuickCommand {
        id: id.to_string(),
        name: format!("name of {}", id),
        command: format!("run {}", id),
        auto_execute: false,
        tag: tag.to_string(),
        keybinding: kb,
    }
}

fn config() -> QuickCommandConfig {
    QuickCommandConfig {
        commands: vec![
            command("a", "git", binding(true, false, false, "1")),
            command("b", "", KeyBinding::default()),
            command("c", "build", binding(true, false, true, "B")),
            command("d", "git", binding(true, false, false, "1")),
            command("e", "Zeta", KeyBinding::default()),
            command("f", "gi", binding(false, true, false, "F5")),
            command("a", "émile", KeyBinding::default()),
        ],
    }
}

#[test]
fn empty_binding() {
    assert!(KeyBinding::default().is_empty());
    assert!(binding(true, true, true, "").is_empty());
    assert!(!binding(false, false, false, "a").is_empty());
    assert_eq!(KeyBinding::default(), binding(false, false, false, ""));
}

#[test]
fn binding_display() {
    assert_eq!(binding(true, true, true, "").display(), "");
    assert_eq!(binding(false, false, false, "F5").display(), "F5");
    assert_eq!(binding(true, false, false, "1").display(), "Ctrl+1");
    assert_eq!(binding(false, true, false, "a").display(), "Alt+a");
    assert_eq!(binding(false, false, true, "é").display(), "Shift+é");
    assert_eq!(binding(true, true, true, "K").display(), "Ctrl+Alt+Shift+K");
    assert_eq!(binding(true, false, true, "+").display(), "Ctrl+Shift++");
}

#[test]
fn binding_equality() {
    assert!(binding(true, false, false, "1").same_as(&binding(true, false, false, "1")));
    assert!(!binding(true, false, false, "1").same_as(&binding(true, false, false, "2")));
    assert!(!binding(true, false, false, "1").same_as(&binding(false, false, false, "1")));
    assert!(binding(true, false, false, "1") == binding(true, false, false, "1"));
    assert!(binding(true, false, false, "1") != binding(true, true, false, "1"));
}

#[test]
fn new_command_is_blank_with_a_fresh_id() {
    let a = QuickCommand::new_empty();
    let b = QuickCommand::new_empty();
    assert_eq!(a.name, "");
    assert_eq!(a.command, "");
    assert!(a.auto_execute);
    assert_eq!(a.tag, "default");
    assert!(a.keybinding.is_empty());
    assert_eq!(a.id.len(), 36);
    assert_ne!(a.id, b.id);
}

#[test]
fn tags_are_sorted_and_unique() {
    assert_eq!(config().tags(), vec!["Zeta", "build", "gi", "git", "émile"]);
    assert!(QuickCommandConfig::default().tags().is_empty());
}

#[test]
fn commands_by_tag_keeps_the_order() {
    let cfg = config();
    let ids: Vec<&str> = cfg.commands_by_tag("git").iter().map(|c| c.id.as_str()).collect();
    assert_eq!(ids, vec!["a", "d"]);
    let ids: Vec<&str> = cfg.commands_by_tag("").iter().map(|c| c.id.as_str()).collect();
    assert_eq!(ids, vec!["b"]);
    assert!(cfg.commands_by_tag("none").is_empty());
}

#[test]
fn remove_by_id_removes_every_match() {
    let mut cfg = config();
    cfg.remove_by_id("a");
    let ids: Vec<&str> = cfg.commands.iter().map(|c| c.id.as_str()).collect();
    assert_eq!(ids, vec!["b", "c", "d", "e", "f"]);
    cfg.remove_by_id("zzz");
    assert_eq!(cfg.commands.len(), 5);
    assert_eq!(cfg.commands[1].command, "run c");
}

#[test]
fn find_by_keybinding_returns_the_first_match() {
    let cfg = config();
    assert_eq!(cfg.find_by_keybinding(&binding(true, false, false, "1")).unwrap().id, "a");
    assert_eq!(cfg.find_by_keybinding(&binding(false, true, false, "F5")).unwrap().id, "f");
    assert!(cfg.find_by_keybinding(&binding(true, false, false, "2")).is_none());
    assert!(cfg.find_by_keybinding(&KeyBinding::default()).is_none());
    assert!(cfg.find_by_keybinding(&binding(true, false, false, "")).is_none());
}
