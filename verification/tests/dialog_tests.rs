use smart_garden_gateway_boot_analyzer::dialog::compose_inform;
use smart_garden_gateway_boot_analyzer::dialog::inform;

#[test]
fn compose_inform_is_exact() {
    assert_eq!(compose_inform("!", "Hello"), "! Hello\n");
    assert_eq!(compose_inform("*", ""), "* \n");
}

#[test]
fn inform_carries_message_and_marker() {
    let line = inform("No serial ports found");
    assert!(line.ends_with(" No serial ports found\n"));
    // The marker is never empty, styled or not.
    assert!(line.len() >= " No serial ports found\n".len() + 1);
}
