use openbci::wire::{contains, start_command, stop_command, SetupStep, NEWLINE};

#[test]
fn wire_newline() {
    assert_eq!(NEWLINE, 0x0A);
}

#[test]
fn wire_start_and_stop_commands() {
    assert_eq!(start_command(), vec![0x62, 0x0A]);
    assert_eq!(stop_command(), vec![0x73, 0x0A]);
}

#[test]
fn wire_reset_command() {
    assert_eq!(SetupStep::Reset.command(), vec![b'v', 0x0A]);
    assert_eq!(SetupStep::Reset.command(), vec![0x76, 0x0A]);
}

#[test]
fn wire_channel_mode_command() {
    assert_eq!(SetupStep::ChannelMode.command(), vec![b'C', 0x0A]);
    assert_eq!(SetupStep::ChannelMode.command(), vec![0x43, 0x0A]);
}

#[test]
fn wire_channel_settings_command() {
    let expected = "x1060110Xx2060110Xx3060110Xx4060110Xx5060110Xx6060110Xx7060110Xx8060110X\
                    xQ060110XxW060110XxE060110XxR060110XxT060110XxY060110XxU060110XxI060110X\n";
    let command = SetupStep::ChannelSettings.command();
    assert_eq!(command.len(), 16 * 9 + 1);
    assert_eq!(command, expected.as_bytes().to_vec());
    assert_eq!(command[0], 0x78);
    assert_eq!(command[1], 0x31);
    assert_eq!(command[8], 0x58);
    assert_eq!(command[144], 0x0A);
}

#[test]
fn wire_expected_replies() {
    assert_eq!(SetupStep::Reset.expected_reply(), b"Firmware: v3.1.2".to_vec());
    assert_eq!(SetupStep::ChannelMode.expected_reply(), b"16$$$".to_vec());
    assert_eq!(SetupStep::ChannelSettings.expected_reply(), b"Channel set for 16$$$".to_vec());
}

#[test]
fn wire_steps_follow_each_other() {
    assert_eq!(SetupStep::Reset.following(), Some(SetupStep::ChannelMode));
    assert_eq!(SetupStep::ChannelMode.following(), Some(SetupStep::ChannelSettings));
    assert_eq!(SetupStep::ChannelSettings.following(), None);
}

#[test]
fn wire_contains() {
    assert!(contains(b"hello world", b"hello"));
    assert!(contains(b"hello world", b"world"));
    assert!(contains(b"hello world", b"o w"));
    assert!(contains(b"hello world", b"hello world"));
    assert!(!contains(b"hello world", b"hello world!"));
    assert!(!contains(b"hello world", b"worlds"));
    assert!(!contains(b"hello world", b"ow"));
    assert!(contains(b"aaab", b"aab"));
    assert!(!contains(b"", b"a"));
}

#[test]
fn wire_contains_empty_needle() {
    assert!(contains(b"abc", b""));
    assert!(contains(b"", b""));
}

#[test]
fn wire_acknowledged_by() {
    let banner = b"OpenBCI V3 8-16 channel\nOn Board ADS1299 Device ID: 0x3E\nFirmware: v3.1.2\n$$$";
    assert!(SetupStep::Reset.acknowledged_by(banner));
    assert!(!SetupStep::Reset.acknowledged_by(b"Firmware: v3.1.1\n$$$"));
    assert!(!SetupStep::Reset.acknowledged_by(b"Firmware: v3.1."));
    assert!(!SetupStep::Reset.acknowledged_by(b""));
    assert!(SetupStep::ChannelMode.acknowledged_by(b"daisy attached16$$$"));
    assert!(!SetupStep::ChannelMode.acknowledged_by(b"no daisy to attach!8$$$"));
    assert!(SetupStep::ChannelSettings.acknowledged_by(b"Channel set for 1$$$Channel set for 16$$$"));
    assert!(!SetupStep::ChannelSettings.acknowledged_by(b"Channel set for 15$$$"));
    assert!(!SetupStep::ChannelSettings.acknowledged_by(b"16$$$"));
}
