use end_model::report::{Ansi, Error, Lang};

#[test]
fn ansi_styles_only_when_enabled() {
    let on = Ansi::new(true);
    assert_eq!(on.h("T"), "\x1b[1m\x1b[36mT\x1b[0m");
    assert_eq!(on.good("ok"), "\x1b[1m\x1b[32mok\x1b[0m");
    assert_eq!(on.warn("w"), "\x1b[1m\x1b[33mw\x1b[0m");
    assert_eq!(on.dim("d"), "\x1b[2md\x1b[0m");
    assert_eq!(on.esc("unknown"), "\x1b[0m");
    let off = Ansi::new(false);
    assert_eq!(off.h("T"), "T");
    assert_eq!(off.good("ok"), "ok");
    assert_eq!(off.warn("w"), "w");
    assert_eq!(off.dim("d"), "d");
    assert_eq!(off.esc("bold"), "");
}

#[test]
fn report_error_messages() {
    assert_eq!(Error::MissingOutpost(3).message(), "Missing outpost index 3");
    assert_eq!(
        Error::MissingLogisticsNode { item: 7, node: 12 }.message(),
        "Missing logistics node 12 for item id 7"
    );
}

#[test]
fn languages_are_distinct() {
    assert!(Lang::Zh != Lang::En);
    assert_eq!(Lang::En, Lang::En);
}
