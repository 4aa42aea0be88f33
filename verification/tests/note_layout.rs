use lifekit::note::layout::{compose, Grid, Role, Style};

fn render(g: &Grid) -> Vec<String> {
    g.iter().map(|row| row.iter().map(|&(c, _)| c).collect()).collect()
}

fn s(v: &[&str]) -> Vec<String> {
    v.iter().map(|x| x.to_string()).collect()
}

#[test]
fn single_with_title() {
    let g = compose("firefox", &s(&["Download finished"]), &s(&["rice.png saved"]), Style::Single, 40);
    assert_eq!(
        render(&g),
        vec![
            "┌─ firefox ─────────┐",
            "│ Download finished │",
            "│                   │",
            "│ rice.png saved    │",
            "└───────────────────┘",
        ]
    );
}

#[test]
fn every_style_corners() {
    for (style, tl, br) in [
        (Style::Single, '┌', '┘'),
        (Style::Rounded, '╭', '╯'),
        (Style::Heavy, '┏', '┛'),
        (Style::Double, '╔', '╝'),
        (Style::Ascii, '+', '+'),
    ] {
        let g = compose("app", &s(&["hi"]), &[], style, 40);
        let r = render(&g);
        assert!(r[0].starts_with(tl), "{style:?}: {}", r[0]);
        assert!(r.last().unwrap().ends_with(br), "{style:?}");
    }
}

#[test]
fn no_title_plain_rule() {
    let g = compose("", &s(&["hey"]), &[], Style::Single, 40);
    assert_eq!(render(&g), vec!["┌─────┐", "│ hey │", "└─────┘"]);
}

#[test]
fn no_spacer_without_body() {
    let g = compose("x", &s(&["only summary"]), &[], Style::Single, 40);
    assert_eq!(render(&g).len(), 3);
}

#[test]
fn rows_equal_width() {
    let g = compose("someapp", &s(&["a"]), &s(&["bb", "a much longer body line here"]), Style::Double, 40);
    let r = render(&g);
    let w = r[0].chars().count();
    assert!(r.iter().all(|row| row.chars().count() == w));
}

#[test]
fn long_title_truncated() {
    let g = compose("a-ridiculously-long-application-name-oh-no", &s(&["hi"]), &[], Style::Single, 20);
    let r = render(&g);
    assert!(r[0].chars().count() <= 24);
    assert!(r[0].contains('…'));
}

#[test]
fn roles_tag_each_part() {
    let g = compose(" app ", &s(&["sum"]), &s(&["body"]), Style::Ascii, 40);
    assert_eq!(render(&g)[0], "+- app -+");
    assert_eq!(g[0][3], ('a', Role::Title));
    assert_eq!(g[1][2], ('s', Role::Summary));
    assert_eq!(g[2][2], (' ', Role::Body));
    assert_eq!(g[3][2], ('b', Role::Body));
    assert_eq!(g[0][0], ('+', Role::Border));
}

#[test]
fn tiny_width_still_frames() {
    let g = compose("app", &s(&["ab"]), &[], Style::Single, 0);
    assert_eq!(render(&g), vec!["┌─ … ┐", "│ ab │", "└────┘"]);
}

#[test]
fn any_column_limit_is_accepted() {
    let g = compose("app", &["hello".to_string()], &[], Style::Single, usize::MAX);
    assert_eq!(g.len(), 3);
    assert!(g.iter().all(|r| r.len() == 5 + 4));
}
