//! Painted output with colours forced on: the exact escape sequences.

use md_docs::output::CliMessage;

#[test]
fn painted_messages_with_colours_on() {
    colored::control::set_override(true);

    let info = CliMessage::Info("plain".to_string()).formatted();
    assert_eq!(info, "\x1B[36mplain\x1B[0m");

    // A reset inside the text is followed by the style again.
    let nested = CliMessage::Info("a\x1B[0mb\x1B[0mc".to_string()).formatted();
    assert_eq!(nested, "\x1B[36ma\x1B[0m\x1B[36mb\x1B[0m\x1B[36mc\x1B[0m");

    let log = CliMessage::Log("x\x1B[0m".to_string()).formatted();
    assert_eq!(log, "\x1B[2mx\x1B[0m\x1B[2m\x1B[0m");

    let warning = CliMessage::Warning("careful".to_string()).formatted();
    assert_eq!(warning, "\x1B[1;33mwarning:\x1B[0m careful");
    let error = CliMessage::Error("broken".to_string()).formatted();
    assert_eq!(error, "\x1B[1;31merror:\x1B[0m broken");
    let success = CliMessage::Success("done".to_string()).formatted();
    assert_eq!(success, "\x1B[1;32m\u{2713}\x1B[0m done");

    colored::control::unset_override();
}
