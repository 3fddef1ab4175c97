use host::gui::plain_text;

#[test]
fn strips_markdown_emphasis_and_links() {
    assert_eq!(plain_text("**J12**（USB CDC）"), "J12（USB CDC）");
    assert_eq!(
        plain_text("詳細は [board_dcmd.md](board_dcmd.md) を参照"),
        "詳細は board_dcmd.md を参照"
    );
    assert_eq!(plain_text("素の行"), "素の行");
}

#[test]
fn unfinished_links_and_lone_stars_stay() {
    assert_eq!(plain_text("[label] (target)"), "[label] (target)");
    assert_eq!(plain_text("[label](target"), "[label](target");
    assert_eq!(plain_text("a * b"), "a * b");
    assert_eq!(plain_text("***x***"), "*x*");
    assert_eq!(plain_text("[a](x) and [b](y)"), "a and b");
    assert_eq!(plain_text(""), "");
}
