use lifekit::greet::sessions::{parse_desktop, SessionEntry, Sessions};

#[test]
fn parses_and_defaults_to_niri() {
    let niri = "[Desktop Entry]\nName=Niri\nComment=x\nExec=niri-session\nType=Application\n";
    let plasma = "[Desktop Entry]\nName=Plasma (Wayland)\nExec=/usr/lib/plasma-dbus-run-session-if-needed /usr/bin/startplasma-wayland\n";
    let a = parse_desktop(plasma).unwrap();
    assert_eq!(a.name, "Plasma (Wayland)");
    assert_eq!(a.cmd.len(), 2);
    let b = parse_desktop(niri).unwrap();
    assert_eq!(b.cmd, vec!["niri-session"]);
}

#[test]
fn hidden_and_actions_sections_skipped() {
    let hidden = "[Desktop Entry]\nName=X\nExec=x\nHidden=true\n";
    assert!(parse_desktop(hidden).is_none());
    let with_action = "[Desktop Entry]\nName=Y\nExec=y %U\n[Desktop Action new]\nName=Z\nExec=z\n";
    let e = parse_desktop(with_action).unwrap();
    assert_eq!(e.name, "Y");
    assert_eq!(e.cmd, vec!["y"]);
}

#[test]
fn load_missing_dir_falls_back_and_cycles() {
    let fallback = vec!["niri-session".to_string()];
    let mut s = Sessions::from_entries(Vec::new(), &fallback);
    assert_eq!(s.len(), 1);
    assert_eq!(s.current().cmd, fallback);
    s.cycle();
    assert_eq!(s.current().cmd, fallback);
}

#[test]
fn load_real_dir_and_cycle() {
    let files = [
        "[Desktop Entry]\nName=Plasma\nExec=startplasma-wayland\n",
        "[Desktop Entry]\nName=Niri\nExec=niri-session\n",
    ];
    let entries: Vec<SessionEntry> = files.iter().filter_map(|t| parse_desktop(t)).collect();
    let fallback = vec!["fallback".to_string()];
    let mut s = Sessions::from_entries(entries, &fallback);
    assert_eq!(s.len(), 2);
    assert_eq!(s.current().name, "Niri");
    s.cycle();
    assert_eq!(s.current().name, "Plasma");
    s.cycle();
    assert_eq!(s.current().name, "Niri");
}

#[test]
fn desktop_edge_cases() {
    assert!(parse_desktop("Name=A\nExec=a\n").is_none());
    assert!(parse_desktop("[Desktop Entry]\nName=A\n").is_none());
    assert!(parse_desktop("[Desktop Entry]\nExec=%f %U\n").is_none());
    assert!(parse_desktop("[Desktop Entry]\nExec=a\nNoDisplay= TRUE \n").is_none());
    let e = parse_desktop("  [Desktop Entry]  \r\nExec=  sway --unsupported-gpu  \r\nName=First\nName=Second\nHidden=false\n").unwrap();
    assert_eq!(e.name, "First");
    assert_eq!(e.cmd, vec!["sway", "--unsupported-gpu"]);
    let e = parse_desktop("[Desktop Entry]\nExec=labwc -s foot\n").unwrap();
    assert_eq!(e.name, "labwc");
}

#[test]
fn fallback_name_joins_words_and_niri_anywhere_is_default() {
    let fallback = vec!["dbus-run-session".to_string(), "sway".to_string()];
    let s = Sessions::from_entries(Vec::new(), &fallback);
    assert_eq!(s.current().name, "dbus-run-session sway");
    let entries = vec![
        SessionEntry { name: "A".into(), cmd: vec!["a".into()] },
        SessionEntry { name: "B".into(), cmd: vec!["/usr/bin/env".into(), "/opt/niri-session-x".into()] },
        SessionEntry { name: "C".into(), cmd: vec!["niri-session".into()] },
    ];
    let mut s = Sessions::from_entries(entries, &fallback);
    assert_eq!(s.current().name, "B");
    for _ in 0..3 {
        s.cycle();
    }
    assert_eq!(s.current().name, "B");
}
